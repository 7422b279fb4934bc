//! The index of the modules and scripts of a package.
pub mod fusion_index;
pub mod fusion_loader;
pub mod module;
pub mod rules;
pub mod script;
