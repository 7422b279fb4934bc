//! Formatting of intermediate syntax trees.
pub mod fixup;
pub mod formatter;
pub mod layout;

use crate::config::{FusionConfig, Options};
use crate::format::fixup::{fixed_tree, fixup_ist};
use crate::format::formatter::Formatter;
use crate::format::layout::emit_tree;
use crate::ist::IntermediateSyntaxTree;
use crate::model::Node;
use crate::text::{join_trimmed, lines};
use vstd::prelude::*;

verus! {

/// The tree that the formatter writes: the tree after the fix-up pass if the options ask
/// for it, else the tree as it is.
pub open spec fn prepared(cfg: Options, tree: Seq<Node>) -> Seq<Node> {
    if cfg.fix_up() {
        fixed_tree(tree)
    } else {
        tree
    }
}

/// The canonical text of a tree: its nodes written one after the other, every line
/// stripped of trailing whitespace and ended by a newline.
pub open spec fn formatted(cfg: Options, tree: Seq<Node>) -> Seq<char> {
    join_trimmed(lines(emit_tree(cfg, prepared(cfg, tree))))
}

/// Formats the given tree into a string using the provided options
pub fn format(fusion_config: &FusionConfig, ist: &IntermediateSyntaxTree) -> (text: String)
    ensures
        text@ == formatted(fusion_config@, ist@),
{
    let mut formatter = Formatter::new(fusion_config);
    if fusion_config.newline_fix_up_mode() {
        let fixed = fixup_ist(ist);
        formatter.format(&fixed.expressions);
    } else {
        formatter.format(&ist.expressions);
    }
    formatter.finish()
}

} // verus!
