//! Modules: what they require and what they provide.
use crate::ast::node_views;
use crate::config::same_text;
use crate::file::FusionFile;
use crate::model::Node;
use crate::span::ShortSpan;
use vstd::prelude::*;

verus! {

/// A name and the place in a source file that it comes from.
#[derive(Debug)]
pub struct Origin {
    pub name: String,
    pub originates_from: ShortSpan,
}

/// A required name under the name that it has in the requiring file.
#[derive(Debug)]
pub struct Mapping {
    pub name: String,
    pub origin: Origin,
}

/// What a file requires of a module.
#[derive(Debug)]
pub enum RequireType {
    /// For `(require "module")`
    All,
    /// For `(require (only_in ...))`
    Names(Vec<Origin>),
    /// For `(require (rename_in ...))` and `(require (prefix_in ...))`
    Mapped(Vec<Mapping>),
}

/// One requirement of a file: the name of the module and what is required of it.
#[derive(Debug)]
pub struct RequireForm {
    pub module: String,
    pub required: RequireType,
}

/// A name that a module provides, with the place that it comes from.
#[derive(Debug)]
pub struct Provide {
    pub name: String,
    pub span: ShortSpan,
}

/// A module: its name, the module that is its language, its file, and what it requires
/// and provides.
#[derive(Debug)]
pub struct Module {
    pub name: String,
    pub language: String,
    pub file: FusionFile,
    pub requirements: Vec<RequireForm>,
    pub provides: Vec<Provide>,
}

/// A name with its place, as the contracts see it.
pub struct Named {
    pub name: Seq<char>,
    pub span: ShortSpan,
}

/// A renamed requirement as the contracts see it.
pub struct Renamed {
    pub name: Seq<char>,
    pub origin: Named,
}

/// What is required of a module, as the contracts see it.
pub enum Required {
    All,
    Names(Seq<Named>),
    Mapped(Seq<Renamed>),
}

/// A requirement as the contracts see it.
pub struct Requirement {
    pub module: Seq<char>,
    pub required: Required,
}

/// A module as the contracts see it.
pub struct ModuleModel {
    pub name: Seq<char>,
    pub language: Seq<char>,
    pub file_name: Seq<char>,
    pub contents: Seq<char>,
    pub tree: Seq<Node>,
    pub requirements: Seq<Requirement>,
    pub provides: Seq<Named>,
}

impl View for Origin {
    type V = Named;

    open spec fn view(&self) -> Named {
        Named { name: self.name@, span: self.originates_from }
    }
}

impl View for Provide {
    type V = Named;

    open spec fn view(&self) -> Named {
        Named { name: self.name@, span: self.span }
    }
}

impl View for Mapping {
    type V = Renamed;

    open spec fn view(&self) -> Renamed {
        Renamed { name: self.name@, origin: self.origin@ }
    }
}

impl View for RequireType {
    type V = Required;

    open spec fn view(&self) -> Required {
        match self {
            RequireType::All => Required::All,
            RequireType::Names(names) => Required::Names(names@.map_values(|o: Origin| o@)),
            RequireType::Mapped(mapping) => Required::Mapped(mapping@.map_values(|m: Mapping| m@)),
        }
    }
}

impl View for RequireForm {
    type V = Requirement;

    open spec fn view(&self) -> Requirement {
        Requirement { module: self.module@, required: self.required@ }
    }
}

/// The views of a sequence of provided names.
pub open spec fn provide_views(provides: Seq<Provide>) -> Seq<Named> {
    provides.map_values(|p: Provide| p@)
}

/// The views of a sequence of requirements.
pub open spec fn require_views(forms: Seq<RequireForm>) -> Seq<Requirement> {
    forms.map_values(|r: RequireForm| r@)
}

impl View for Module {
    type V = ModuleModel;

    open spec fn view(&self) -> ModuleModel {
        ModuleModel {
            name: self.name@,
            language: self.language@,
            file_name: self.file.file_name@,
            contents: self.file.contents@,
            tree: node_views(self.file.ast@),
            requirements: require_views(self.requirements@),
            provides: provide_views(self.provides@),
        }
    }
}

/// The place of the first of `names[from..]` that is called `name`.
pub open spec fn place_of(names: Seq<Named>, name: Seq<char>, from: int) -> Option<ShortSpan>
    decreases names.len() - from,
{
    if from < 0 || from >= names.len() {
        None
    } else if names[from].name == name {
        Some(names[from].span)
    } else {
        place_of(names, name, from + 1)
    }
}

/// The place of the first of `mapping[from..]` whose origin is called `name`.
pub open spec fn mapped_place_of(mapping: Seq<Renamed>, name: Seq<char>, from: int) -> Option<
    ShortSpan,
>
    decreases mapping.len() - from,
{
    if from < 0 || from >= mapping.len() {
        None
    } else if mapping[from].origin.name == name {
        Some(mapping[from].origin.span)
    } else {
        mapped_place_of(mapping, name, from + 1)
    }
}

/// `names` with `name` at `span`: in place of the entry of that name if there is one,
/// else at the end.
pub open spec fn with_name(names: Seq<Named>, name: Seq<char>, span: ShortSpan) -> Seq<Named>
    decreases names.len(),
{
    if names.len() == 0 {
        seq![Named { name, span }]
    } else if names[0].name == name {
        seq![Named { name, span }] + names.drop_first()
    } else {
        seq![names[0]] + with_name(names.drop_first(), name, span)
    }
}

/// `names` with the first `k` of `more` put in, one after the other.
pub open spec fn with_names(names: Seq<Named>, more: Seq<Named>, k: int) -> Seq<Named>
    decreases k,
{
    if k <= 0 || k > more.len() {
        names
    } else {
        with_name(with_names(names, more, k - 1), more[k - 1].name, more[k - 1].span)
    }
}

/// The place of the first of `names` that is called `name`.
pub fn find_place(names: &Vec<Provide>, name: &str) -> (place: Option<ShortSpan>)
    ensures
        place == place_of(provide_views(names@), name@, 0),
{
    let ghost all = provide_views(names@);
    let mut i: usize = 0;
    while i < names.len()
        invariant
            i <= names.len(),
            all == provide_views(names@),
            place_of(all, name@, i as int) == place_of(all, name@, 0),
        decreases names.len() - i,
    {
        assert(all[i as int] == names[i as int]@);
        if same_text(names[i].name.as_str(), name) {
            return Some(names[i].span);
        }
        i += 1;
    }
    None
}

/// Puts `name` at `span` into `names`: in place of the entry of that name if there is
/// one, else at the end.
pub fn put_place(names: &mut Vec<Provide>, name: String, span: ShortSpan)
    ensures
        provide_views(final(names)@) == with_name(provide_views(old(names)@), name@, span),
{
    let ghost start = provide_views(names@);
    let mut i: usize = 0;
    assert(start.skip(0) =~= start);
    assert(start.take(0) + with_name(start.skip(0), name@, span) =~= with_name(
        start,
        name@,
        span,
    ));
    while i < names.len()
        invariant
            i <= names.len(),
            names@ == old(names)@,
            start == provide_views(names@),
            start.take(i as int) + with_name(start.skip(i as int), name@, span) == with_name(
                start,
                name@,
                span,
            ),
        decreases names.len() - i,
    {
        assert(start[i as int] == names[i as int]@);
        assert(start.skip(i as int)[0] == start[i as int]);
        assert(start.skip(i as int).drop_first() =~= start.skip(i + 1));
        if same_text(names[i].name.as_str(), name.as_str()) {
            let mut taken = names.remove(i);
            taken.span = span;
            names.insert(i, taken);
            assert(provide_views(names@) =~= start.take(i as int) + (seq![
                Named { name: name@, span },
            ] + start.skip(i + 1)));
            return ;
        }
        assert(start.take(i + 1) + with_name(start.skip(i + 1), name@, span) =~= start.take(
            i as int,
        ) + (seq![start[i as int]] + with_name(start.skip(i + 1), name@, span)));
        i += 1;
    }
    names.push(Provide { name, span });
    assert(start.skip(names.len() - 1) =~= Seq::<Named>::empty());
    assert(provide_views(names@) =~= start.take(start.len() as int) + seq![
        Named { name: name@, span },
    ]);
}

impl Origin {
    pub fn new(name: String, originates_from: ShortSpan) -> (origin: Origin)
        ensures
            origin@ == (Named { name: name@, span: originates_from }),
    {
        Origin { name, originates_from }
    }
}

impl RequireForm {
    pub fn new(module: String, required: RequireType) -> (form: RequireForm)
        ensures
            form@ == (Requirement { module: module@, required: required@ }),
    {
        RequireForm { module, required }
    }
}

impl Module {
    pub fn new(
        name: String,
        language: String,
        file: FusionFile,
        requirements: Vec<RequireForm>,
        provides: Vec<Provide>,
    ) -> (module: Module)
        ensures
            module@ == (ModuleModel {
                name: name@,
                language: language@,
                file_name: file.file_name@,
                contents: file.contents@,
                tree: node_views(file.ast@),
                requirements: require_views(requirements@),
                provides: provide_views(provides@),
            }),
    {
        Module { name, language, file, requirements, provides }
    }
}

} // verus!
