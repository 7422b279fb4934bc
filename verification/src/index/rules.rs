//! What a file declares: its language, what it requires, defines and provides. The rules
//! are functions from what has been found so far to what has been found after a node, or
//! to the reason for which the walk stops.
use crate::check::rules::next_item;
use crate::index::fusion_index::module_position;
use crate::index::module::{
    mapped_place_of, place_of, with_name, with_names, ModuleModel, Named, Renamed, Required,
    Requirement,
};
use crate::model::{AtomicType, Compound, Node};
use crate::span::ShortSpan;
use vstd::prelude::*;

verus! {

// What the errors for forms that declare something say.

pub const MISSING_MODULE_NAME: &'static str = "missing module name";

pub const MISSING_LANGUAGE: &'static str = "missing module language";

pub const BAD_REQUIRE: &'static str = "argument 0 to require must be string or s-expr";

pub const NO_PREFIX_IN: &'static str =
    "support for `(require (prefix_in ...))` is not implemented";

pub const INVALID_REQUIRE: &'static str = "invalid argument to require";

pub const NOT_A_SYMBOL: &'static str = "non-symbol found in require only_in list";

pub const EXPECTED_SEXPR: &'static str = "expected s-expression";

pub const EXPECTED_STRING: &'static str = "expected string";

pub const INVALID_MAPPING: &'static str = "invalid rename_in mapping";

pub const EXPECTED_OUT: &'static str = "expected all_defined_out or rename_out";

pub const UNEXPECTED_SEXPR: &'static str = "unexpected s-expression";

pub const NO_LOCAL_NAME: &'static str = "rename_out requires a local name";

pub const NO_PROVIDED_NAME: &'static str = "rename_out requires a provided name";

pub const UNKNOWN_LOCAL_NAME: &'static str = "rename_out of a name that is not known";

pub const NO_RENAME_SEXPR: &'static str = "rename_out expected s-expression";

/// The name of the module that needs no file.
pub open spec fn kernel() -> Seq<char> {
    "/fusion/private/kernel"@
}

/// What has been found in a file so far.
pub struct Found {
    pub language: Option<Seq<char>>,
    pub all_defined_out: bool,
    pub defined: Seq<Named>,
    pub requirements: Seq<Requirement>,
    pub provides: Seq<Named>,
}

/// Why a walk stops: a module has to be loaded first, or the file is in error.
pub enum Stop {
    Needs(Seq<char>),
    Failed { span: ShortSpan, message: Seq<char> },
}

/// What has been found, or why the walk stopped.
pub type Step = Result<Found, Stop>;

/// A file is in error at `span`.
pub open spec fn failed(span: ShortSpan, message: Seq<char>) -> Step {
    Err(Stop::Failed { span, message })
}

/// The module `name` is there: it is the kernel, or it is in `modules`.
pub open spec fn loaded(modules: Seq<ModuleModel>, name: Seq<char>) -> bool {
    name == kernel() || module_position(modules, name, 0) is Some
}

impl Found {
    /// Nothing has been found yet.
    pub open spec fn nothing() -> Found {
        Found {
            language: None,
            all_defined_out: false,
            defined: Seq::empty(),
            requirements: Seq::empty(),
            provides: Seq::empty(),
        }
    }

    /// The place that the name `name` of a required module comes from.
    pub open spec fn required_place(self, modules: Seq<ModuleModel>, name: Seq<char>, from: int) -> Option<
        ShortSpan,
    >
        decreases self.requirements.len() - from,
    {
        if from < 0 || from >= self.requirements.len() {
            None
        } else {
            let here = match self.requirements[from].required {
                Required::All => match module_position(modules, self.requirements[from].module, 0) {
                    Some(i) => place_of(modules[i].provides, name, 0),
                    None => None,
                },
                Required::Names(names) => place_of(names, name, 0),
                Required::Mapped(mapping) => mapped_place_of(mapping, name, 0),
            };
            match here {
                Some(place) => Some(place),
                None => self.required_place(modules, name, from + 1),
            }
        }
    }

    /// What the file provides in the end: with `all_defined_out`, all that it defines is
    /// provided too.
    pub open spec fn provided(self) -> Seq<Named> {
        if self.all_defined_out {
            with_names(self.provides, self.defined, self.defined.len() as int)
        } else {
            self.provides
        }
    }

    /// The language of the file, empty if it names none.
    pub open spec fn language_name(self) -> Seq<char> {
        match self.language {
            Some(name) => name,
            None => Seq::empty(),
        }
    }
}

/// The text of a string or of a symbol without its quotes.
pub open spec fn name_text(n: Node) -> Option<Seq<char>> {
    match n.string_text() {
        Some(text) => Some(text),
        None => n.stripped_symbol_text(),
    }
}

/// What has been found after a node has been walked.
pub open spec fn visit_expr(modules: Seq<ModuleModel>, f: Found, n: Node, quoted: bool) -> Step
    decreases n, 0int,
{
    match n {
        Node::SExpr(c) => visit_sexpr(modules, f, c, quoted),
        Node::List(c) => visit_from(modules, f, c.items, 0, quoted),
        Node::Struct(c) => visit_from(modules, f, c.items, 0, quoted),
        _ => Ok(f),
    }
}

/// What has been found after `items[from..]` have been walked, one after the other.
pub open spec fn visit_from(modules: Seq<ModuleModel>, f: Found, items: Seq<Node>, from: int, quoted: bool) -> Step
    decreases items, items.len() - from,
{
    if from < 0 || from >= items.len() {
        Ok(f)
    } else {
        match visit_expr(modules, f, items[from], quoted) {
            Ok(next) => visit_from(modules, next, items, from + 1, quoted),
            Err(stop) => Err(stop),
        }
    }
}

/// What has been found after an s-expression has been walked. Its first child that is
/// neither a comment nor a newline run says what it is.
pub open spec fn visit_sexpr(modules: Seq<ModuleModel>, f: Found, c: Compound, quoted: bool) -> Step
    decreases c, 0int,
{
    let items = c.items;
    let first = next_item(items, 0);
    if first < 0 || first >= items.len() {
        Ok(f)
    } else {
        match items[first].symbol_text() {
            None => Ok(f),
            Some(call) => {
                let rest = first + 1;
                if quoted {
                    visit_from(modules, f, items, rest, call != "unquote"@)
                } else if call == "define"@ {
                    Ok(visit_define(f, items, rest, false))
                } else if call == "define_syntax"@ || call == "defpub"@ || call == "defpub_j"@
                    || call == "defpub_syntax"@ {
                    Ok(visit_define(f, items, rest, true))
                } else if call == "module"@ {
                    visit_module(modules, f, items, rest, c.span)
                } else if call == "provide"@ {
                    visit_provide(modules, f, items, rest)
                } else if call == "quasiquote"@ {
                    visit_from(modules, f, items, rest, true)
                } else if call == "quote"@ {
                    Ok(f)
                } else if call == "require"@ {
                    visit_require(modules, f, items, rest)
                } else {
                    visit_from(modules, f, items, rest, quoted)
                }
            },
        }
    }
}

/// What has been found after a definition: the name that is defined, with its place, is
/// added to what the file defines, or, for a public definition, to what it provides.
pub open spec fn visit_define(f: Found, items: Seq<Node>, from: int, public: bool) -> Found {
    let target = next_item(items, from);
    if target < 0 || target >= items.len() {
        f
    } else {
        let named = match items[target].symbol_text() {
            Some(name) => Some(Named { name, span: items[target].span() }),
            None => match items[target] {
                Node::SExpr(c) => {
                    let first = next_item(c.items, 0);
                    if 0 <= first < c.items.len() {
                        match c.items[first].symbol_text() {
                            Some(name) => Some(Named { name, span: c.items[first].span() }),
                            None => None,
                        }
                    } else {
                        None
                    }
                },
                _ => None,
            },
        };
        match named {
            Some(n) => if public {
                Found { provides: with_name(f.provides, n.name, n.span), ..f }
            } else {
                Found { defined: with_name(f.defined, n.name, n.span), ..f }
            },
            None => f,
        }
    }
}

/// What has been found after a module form: its language, which has to be loaded, and
/// what its body declares.
pub open spec fn visit_module(
    modules: Seq<ModuleModel>,
    f: Found,
    items: Seq<Node>,
    from: int,
    span: ShortSpan,
) -> Step
    decreases items, items.len() + 1,
{
    let name = next_item(items, from);
    if name < 0 || name >= items.len() {
        failed(span, MISSING_MODULE_NAME@)
    } else {
        let language = next_item(items, name + 1);
        if language < 0 || language >= items.len() {
            failed(span, MISSING_LANGUAGE@)
        } else {
            match name_text(items[language]) {
                None => failed(span, MISSING_LANGUAGE@),
                Some(text) => if !loaded(modules, text) {
                    Err(Stop::Needs(text))
                } else {
                    visit_from(
                        modules,
                        Found { language: Some(text), ..f },
                        items,
                        language + 1,
                        false,
                    )
                },
            }
        }
    }
}

/// What has been found after `items[from..]`, the arguments of `require`, have been
/// walked. Every module that is named has to be loaded.
pub open spec fn visit_require(modules: Seq<ModuleModel>, f: Found, items: Seq<Node>, from: int) -> Step
    decreases items.len() - from,
{
    if from < 0 || from >= items.len() {
        Ok(f)
    } else if !items[from].is_not_comment_or_newlines() {
        visit_require(modules, f, items, from + 1)
    } else {
        let here = match items[from] {
            Node::Atomic(a) => if a.typ == AtomicType::QuotedString {
                if loaded(modules, a.value) {
                    Ok(
                        Found {
                            requirements: f.requirements.push(
                                Requirement { module: a.value, required: Required::All },
                            ),
                            ..f
                        },
                    )
                } else {
                    Err(Stop::Needs(a.value))
                }
            } else {
                failed(a.span, BAD_REQUIRE@)
            },
            Node::SExpr(c) => visit_require_sexpr(modules, f, c),
            other => failed(other.span(), BAD_REQUIRE@),
        };
        match here {
            Ok(next) => visit_require(modules, next, items, from + 1),
            Err(stop) => Err(stop),
        }
    }
}

/// What has been found after an s-expression among the arguments of `require`.
pub open spec fn visit_require_sexpr(modules: Seq<ModuleModel>, f: Found, c: Compound) -> Step {
    let items = c.items;
    let first = next_item(items, 0);
    if first < 0 || first >= items.len() {
        Ok(f)
    } else {
        match items[first].symbol_text() {
            None => Ok(f),
            Some(call) => if call == "only_in"@ {
                visit_names_of(modules, f, items, first + 1, c.span, false)
            } else if call == "prefix_in"@ {
                failed(items[first].span(), NO_PREFIX_IN@)
            } else if call == "rename_in"@ {
                visit_names_of(modules, f, items, first + 1, c.span, true)
            } else {
                failed(items[first].span(), INVALID_REQUIRE@)
            },
        }
    }
}

/// What has been found after an `only_in` or a `rename_in`: the module that it names
/// has to be loaded; then the names that follow are required of it.
pub open spec fn visit_names_of(
    modules: Seq<ModuleModel>,
    f: Found,
    items: Seq<Node>,
    from: int,
    span: ShortSpan,
    renamed: bool,
) -> Step {
    let at = next_item(items, from);
    if at < 0 || at >= items.len() {
        failed(span, MISSING_MODULE_NAME@)
    } else {
        match items[at].string_text() {
            None => failed(span, MISSING_MODULE_NAME@),
            Some(module) => if !loaded(modules, module) {
                Err(Stop::Needs(module))
            } else if renamed {
                match renamed_names(items, at + 1, Seq::empty()) {
                    Ok(mapping) => Ok(
                        Found {
                            requirements: f.requirements.push(
                                Requirement { module, required: Required::Mapped(mapping) },
                            ),
                            ..f
                        },
                    ),
                    Err(stop) => Err(stop),
                }
            } else {
                match only_names(items, at + 1, Seq::empty()) {
                    Ok(names) => Ok(
                        Found {
                            requirements: f.requirements.push(
                                Requirement { module, required: Required::Names(names) },
                            ),
                            ..f
                        },
                    ),
                    Err(stop) => Err(stop),
                }
            },
        }
    }
}

/// The names of an `only_in`: `names` and the symbols among `items[from..]`, each with its
/// place.
pub open spec fn only_names(items: Seq<Node>, from: int, names: Seq<Named>) -> Result<
    Seq<Named>,
    Stop,
>
    decreases items.len() - from,
{
    if from < 0 || from >= items.len() {
        Ok(names)
    } else if !items[from].is_not_comment_or_newlines() {
        only_names(items, from + 1, names)
    } else {
        match items[from].stripped_symbol_text() {
            Some(name) => only_names(
                items,
                from + 1,
                names.push(Named { name, span: items[from].span() }),
            ),
            None => Err(Stop::Failed { span: items[from].span(), message: NOT_A_SYMBOL@ }),
        }
    }
}

/// The symbols among `items[from..]`, after `names`.
pub open spec fn pair_names(items: Seq<Node>, from: int, names: Seq<Seq<char>>) -> Result<
    Seq<Seq<char>>,
    Stop,
>
    decreases items.len() - from,
{
    if from < 0 || from >= items.len() {
        Ok(names)
    } else if !items[from].is_not_comment_or_newlines() {
        pair_names(items, from + 1, names)
    } else {
        match items[from].stripped_symbol_text() {
            Some(name) => pair_names(items, from + 1, names.push(name)),
            None => Err(Stop::Failed { span: items[from].span(), message: EXPECTED_STRING@ }),
        }
    }
}

/// `mapping` with `name` mapped to `origin`: in place of the entry of that name if there
/// is one, else at the end.
pub open spec fn with_mapping(mapping: Seq<Renamed>, name: Seq<char>, origin: Named) -> Seq<Renamed>
    decreases mapping.len(),
{
    if mapping.len() == 0 {
        seq![Renamed { name, origin }]
    } else if mapping[0].name == name {
        seq![Renamed { name, origin }] + mapping.drop_first()
    } else {
        seq![mapping[0]] + with_mapping(mapping.drop_first(), name, origin)
    }
}

/// The names of a `rename_in`: `mapping` and one entry for each pair among
/// `items[from..]`.
pub open spec fn renamed_names(items: Seq<Node>, from: int, mapping: Seq<Renamed>) -> Result<
    Seq<Renamed>,
    Stop,
>
    decreases items.len() - from,
{
    if from < 0 || from >= items.len() {
        Ok(mapping)
    } else if !items[from].is_not_comment_or_newlines() {
        renamed_names(items, from + 1, mapping)
    } else {
        match items[from] {
            Node::SExpr(c) => match pair_names(c.items, 0, Seq::empty()) {
                Ok(pair) => if pair.len() == 2 {
                    renamed_names(
                        items,
                        from + 1,
                        with_mapping(mapping, pair[0], Named { name: pair[1], span: c.span }),
                    )
                } else {
                    Err(Stop::Failed { span: c.span, message: INVALID_MAPPING@ })
                },
                Err(stop) => Err(stop),
            },
            other => Err(Stop::Failed { span: other.span(), message: EXPECTED_SEXPR@ }),
        }
    }
}

/// What has been found after `items[from..]`, the arguments of `provide`, have been
/// walked.
pub open spec fn visit_provide(modules: Seq<ModuleModel>, f: Found, items: Seq<Node>, from: int) -> Step
    decreases items.len() - from,
{
    if from < 0 || from >= items.len() {
        Ok(f)
    } else if !items[from].is_not_comment_or_newlines() {
        visit_provide(modules, f, items, from + 1)
    } else {
        let item = items[from];
        let here = match item.stripped_symbol_text() {
            Some(name) => Ok(Found { provides: with_name(f.provides, name, item.span()), ..f }),
            None => match item {
                Node::SExpr(c) => {
                    let first = next_item(c.items, 0);
                    if first < 0 || first >= c.items.len() {
                        failed(c.span, UNEXPECTED_SEXPR@)
                    } else {
                        match c.items[first].symbol_text() {
                            Some(call) => if call == "all_defined_out"@ {
                                Ok(Found { all_defined_out: true, ..f })
                            } else if call == "rename_out"@ {
                                visit_rename_out(
                                    modules,
                                    f,
                                    c.items,
                                    first + 1,
                                    c.items[first].span(),
                                )
                            } else {
                                failed(c.span, EXPECTED_OUT@)
                            },
                            None => failed(c.span, EXPECTED_OUT@),
                        }
                    }
                },
                _ => Ok(f),
            },
        };
        match here {
            Ok(next) => visit_provide(modules, next, items, from + 1),
            Err(stop) => Err(stop),
        }
    }
}

/// What has been found after a `rename_out`: the name that is provided, with the place
/// that the local name comes from.
pub open spec fn visit_rename_out(
    modules: Seq<ModuleModel>,
    f: Found,
    items: Seq<Node>,
    from: int,
    span: ShortSpan,
) -> Step {
    let at = next_item(items, from);
    if at < 0 || at >= items.len() {
        failed(span, NO_RENAME_SEXPR@)
    } else {
        match items[at] {
            Node::SExpr(c) => {
                let local = next_item(c.items, 0);
                let local_name = if 0 <= local < c.items.len() {
                    c.items[local].symbol_text()
                } else {
                    None
                };
                let provided = next_item(c.items, local + 1);
                let provided_name = if 0 <= provided < c.items.len() {
                    c.items[provided].symbol_text()
                } else {
                    None
                };
                match local_name {
                    None => failed(span, NO_LOCAL_NAME@),
                    Some(local_name) => match provided_name {
                        None => failed(span, NO_PROVIDED_NAME@),
                        Some(provided_name) => {
                            let place = match place_of(f.defined, local_name, 0) {
                                Some(place) => Some(place),
                                None => f.required_place(modules, local_name, 0),
                            };
                            match place {
                                Some(place) => Ok(
                                    Found {
                                        provides: with_name(f.provides, provided_name, place),
                                        ..f
                                    },
                                ),
                                None => failed(span, UNKNOWN_LOCAL_NAME@),
                            }
                        },
                    },
                }
            },
            _ => failed(span, NO_RENAME_SEXPR@),
        }
    }
}

/// What the file with the top-level nodes `tree` declares.
pub open spec fn declared(modules: Seq<ModuleModel>, tree: Seq<Node>) -> Step {
    visit_from(modules, Found::nothing(), tree, 0, false)
}

} // verus!
