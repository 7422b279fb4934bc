//! What the check reports, as functions from the state before a node has been walked to
//! the state after.
use crate::check::scope::Bindings;
use crate::error::pest_report;
use crate::model::{unquoted, AtomicType, Compound, Node};
use crate::source::{bytes_of, text_at};
use crate::span::ShortSpan;
use vstd::prelude::*;

verus! {

// What the errors of the check say.

pub const UNBOUND: &'static str = "Unbound identifier ";

pub const NO_MODULE: &'static str = "cannot find module named ";

pub const REQUIRE_ARGUMENT: &'static str = "arguments to require must be string or s-expr";

pub const NO_PREFIX_IN: &'static str =
    "support for `(require (prefix_in ...))` is not implemented";

pub const INVALID_REQUIRE: &'static str = "invalid argument to require";

pub const NO_MODULE_NAME: &'static str = "expected module name in rename_in";

pub const NO_SYMBOL: &'static str = "expected symbol";

pub const NO_PAIR_SYMBOLS: &'static str = "expected two symbols in rename_in pair";

pub const NO_SEXPR: &'static str = "expected s-expression";

pub const NO_SEXPR_AFTER_NAME: &'static str = "expected s-expression after module name";

/// A module that can be required: its name and the names it provides.
pub struct Provided {
    pub name: Seq<char>,
    pub provides: Seq<Seq<char>>,
}

/// What the check knows of the file it walks and of the modules around it.
pub struct Context {
    pub file_name: Seq<char>,
    pub contents: Seq<char>,
    pub modules: Seq<Provided>,
}

/// The state of a walk: what is bound, and the messages of the errors found so far.
pub struct Walk {
    pub env: Bindings,
    pub errors: Seq<Seq<char>>,
}

impl Context {
    /// The message of an error about `span`: the report on the span in the file, or the
    /// bare message where the span does not fit the file.
    pub open spec fn message_at(self, span: ShortSpan, message: Seq<char>) -> Seq<char> {
        if text_at(bytes_of(self.contents), span.start as int, span.end as int) is Some {
            pest_report(self.file_name, self.contents, span.start, span.end, message)
        } else {
            message
        }
    }

    /// The names that the first module called `name` provides.
    pub open spec fn provided_by(self, name: Seq<char>) -> Option<Seq<Seq<char>>> {
        provided_from(self.modules, name, 0)
    }
}

/// The names that the first of `modules[from..]` called `name` provides.
pub open spec fn provided_from(modules: Seq<Provided>, name: Seq<char>, from: int) -> Option<
    Seq<Seq<char>>,
>
    decreases modules.len() - from,
{
    if from < 0 || from >= modules.len() {
        None
    } else if modules[from].name == name {
        Some(modules[from].provides)
    } else {
        provided_from(modules, name, from + 1)
    }
}

impl Walk {
    /// The walk with one more error.
    pub open spec fn with_error(self, ctx: Context, span: ShortSpan, message: Seq<char>) -> Walk {
        Walk { errors: self.errors.push(ctx.message_at(span, message)), ..self }
    }

    /// The walk with `symbol` bound in `scope`.
    pub open spec fn bind(self, scope: int, symbol: Seq<char>) -> Walk {
        Walk { env: self.env.with_binding(scope, symbol), ..self }
    }

    /// The walk with `symbol` bound at the top level.
    pub open spec fn bind_top_level(self, symbol: Seq<char>) -> Walk {
        Walk { env: self.env.with_top_level(symbol), ..self }
    }

    /// The walk with a new scope inside `scope`; the new scope is `self.fresh()`.
    pub open spec fn open_scope(self, scope: int) -> Walk {
        Walk { env: self.env.with_scope(Some(scope)), ..self }
    }

    /// The scope that `open_scope` makes next.
    pub open spec fn fresh(self) -> int {
        self.env.scopes.len() as int
    }
}

/// Position of the first of `items[from..]` that is neither a comment nor a newline run,
/// or the number of items if there is none.
pub open spec fn next_item(items: Seq<Node>, from: int) -> int
    decreases items.len() - from,
{
    if from < 0 || from >= items.len() {
        items.len() as int
    } else if items[from].is_not_comment_or_newlines() {
        from
    } else {
        next_item(items, from + 1)
    }
}

/// The walk after every symbol among `items[from..k]` has been bound in `scope`.
pub open spec fn bind_symbols(w: Walk, items: Seq<Node>, from: int, k: int, scope: int) -> Walk
    decreases k - from,
{
    if k <= from || k > items.len() || from < 0 {
        w
    } else {
        let before = bind_symbols(w, items, from, k - 1, scope);
        match items[k - 1].stripped_symbol_text() {
            Some(name) => before.bind(scope, name),
            None => before,
        }
    }
}

/// The walk after the first `k` of `names` have been bound in `scope`.
pub open spec fn bind_all(w: Walk, names: Seq<Seq<char>>, k: int, scope: int) -> Walk
    decreases k,
{
    if k <= 0 || k > names.len() {
        w
    } else {
        bind_all(w, names, k - 1, scope).bind(scope, names[k - 1])
    }
}

/// A `|` that ends the argument list of a short lambda stands among `items[from..k]`.
pub open spec fn pipe_closed(items: Seq<Node>, from: int, k: int) -> bool {
    exists|j: int|
        from <= j < k && 0 <= j < items.len() && (#[trigger] items[j]).stripped_symbol_text()
            == Some(seq!['|'])
}

/// The walk after a node has been checked in `scope`. A symbol that is not quoted must be
/// bound; the children of a list or a struct are checked in turn; an s-expression is
/// checked by its first child.
pub open spec fn walk_expr(ctx: Context, w: Walk, n: Node, scope: int, quoted: bool) -> Walk
    decreases n, 0int,
{
    match n {
        Node::Atomic(a) => if a.typ == AtomicType::Symbol && !quoted && !w.env.contains(
            scope,
            unquoted(a.value),
        ) {
            w.with_error(ctx, a.span, UNBOUND@ + a.value)
        } else {
            w
        },
        Node::List(c) => walk_range(ctx, w, c.items, 0, c.items.len() as int, scope, quoted),
        Node::Struct(c) => walk_range(ctx, w, c.items, 0, c.items.len() as int, scope, quoted),
        Node::SExpr(c) => walk_sexpr(ctx, w, c, scope, quoted),
        _ => w,
    }
}

/// The walk after `items[from..k]` have been checked in `scope`, one after the other.
pub open spec fn walk_range(
    ctx: Context,
    w: Walk,
    items: Seq<Node>,
    from: int,
    k: int,
    scope: int,
    quoted: bool,
) -> Walk
    decreases items, k,
{
    if k <= from || k > items.len() || from < 0 {
        w
    } else {
        walk_expr(ctx, walk_range(ctx, w, items, from, k - 1, scope, quoted), items[k - 1], scope, quoted)
    }
}

/// The walk after an s-expression has been checked. Its first child that is neither a
/// comment nor a newline run says what it is; without such a child, or if that child is no
/// symbol, nothing is checked.
pub open spec fn walk_sexpr(ctx: Context, w: Walk, c: Compound, scope: int, quoted: bool) -> Walk
    decreases c, 0int,
{
    let items = c.items;
    let first = next_item(items, 0);
    let n = items.len() as int;
    if first >= n {
        w
    } else {
        match items[first].stripped_symbol_text() {
            None => w,
            Some(call) => {
                let rest = first + 1;
                if quoted {
                    walk_range(ctx, w, items, rest, n, scope, call != "unquote"@)
                } else if call == "define"@ {
                    walk_define(ctx, w, items, rest, scope)
                } else if call == "lambda"@ {
                    walk_lambda(ctx, w, items, rest, scope)
                } else if call == "let"@ {
                    walk_let(ctx, w, items, rest, scope, false)
                } else if call == "lets"@ {
                    walk_let(ctx, w, items, rest, scope, true)
                } else if call == "module"@ {
                    let name = next_item(items, rest);
                    let language = next_item(items, name + 1);
                    walk_range(ctx, w, items, language + 1, n, scope, false)
                } else if call == "require"@ {
                    walk_require(ctx, w, items, rest, n, scope)
                } else if call == "quasiquote"@ {
                    walk_range(ctx, w, items, rest, n, scope, true)
                } else if call == "quote"@ {
                    w
                } else if call == "|"@ {
                    walk_pipe(ctx, w.open_scope(scope), items, rest, n, w.fresh())
                } else {
                    let checked = if !w.env.contains(scope, call) {
                        w.with_error(ctx, items[first].span(), UNBOUND@ + call)
                    } else {
                        w
                    };
                    walk_range(ctx, checked, items, rest, n, scope, false)
                }
            },
        }
    }
}

/// The walk after the arguments of `define` have been checked. The name that is defined
/// is bound at the top level, the parameters in a new scope, and the body is checked in
/// that scope.
pub open spec fn walk_define(ctx: Context, w: Walk, items: Seq<Node>, from: int, scope: int) -> Walk
    decreases items, items.len() + 1,
{
    let target = next_item(items, from);
    if target >= items.len() || target < 0 {
        w
    } else {
        let inner = w.fresh();
        let opened = w.open_scope(scope);
        let bound = match items[target] {
            Node::SExpr(c) => if c.items.len() >= 1 && c.items[0].is_symbol() {
                bind_symbols(
                    opened.bind_top_level(c.items[0].stripped_symbol_text()->0),
                    c.items,
                    1,
                    c.items.len() as int,
                    inner,
                )
            } else {
                opened
            },
            other => match other.stripped_symbol_text() {
                Some(name) => opened.bind_top_level(name),
                None => opened,
            },
        };
        walk_range(ctx, bound, items, target + 1, items.len() as int, inner, false)
    }
}

/// The walk after the arguments of `lambda` have been checked. The parameters are bound in
/// a new scope, and the body is checked in that scope.
pub open spec fn walk_lambda(ctx: Context, w: Walk, items: Seq<Node>, from: int, scope: int) -> Walk
    decreases items, items.len() + 1,
{
    let target = next_item(items, from);
    if target >= items.len() || target < 0 {
        w
    } else {
        let inner = w.fresh();
        let opened = w.open_scope(scope);
        let bound = match items[target] {
            Node::SExpr(c) => bind_symbols(opened, c.items, 0, c.items.len() as int, inner),
            other => match other.stripped_symbol_text() {
                Some(name) => opened.bind(inner, name),
                None => opened,
            },
        };
        walk_range(ctx, bound, items, target + 1, items.len() as int, inner, false)
    }
}

/// The walk after the arguments of `let` or `lets` have been checked, if the first of them
/// is a list. The names are bound in a new scope, and the body is checked in that scope.
pub open spec fn walk_let(
    ctx: Context,
    w: Walk,
    items: Seq<Node>,
    from: int,
    scope: int,
    plural: bool,
) -> Walk
    decreases items, items.len() + 1,
{
    let inner = w.fresh();
    let opened = w.open_scope(scope);
    let target = next_item(items, from);
    if target >= items.len() || target < 0 {
        opened
    } else {
        match items[target] {
            Node::List(c) => walk_range(
                ctx,
                walk_bindings(ctx, opened, c.items, c.items.len() as int, scope, inner, plural),
                items,
                target + 1,
                items.len() as int,
                inner,
                false,
            ),
            _ => opened,
        }
    }
}

/// The walk after the first `k` bindings of a `let` have been checked. Each binding that
/// is an s-expression with a symbol and more binds the symbol in the scope `inner`; what
/// follows its first child is checked in `inner` for `lets`, else in `scope`.
pub open spec fn walk_bindings(
    ctx: Context,
    w: Walk,
    bindings: Seq<Node>,
    k: int,
    scope: int,
    inner: int,
    plural: bool,
) -> Walk
    decreases bindings, k,
{
    if k <= 0 || k > bindings.len() {
        w
    } else {
        let before = walk_bindings(ctx, w, bindings, k - 1, scope, inner, plural);
        match bindings[k - 1] {
            Node::SExpr(c) => {
                let bound = if c.items.len() > 1 && c.items[0].is_symbol() {
                    before.bind(inner, c.items[0].stripped_symbol_text()->0)
                } else {
                    before
                };
                walk_range(
                    ctx,
                    bound,
                    c.items,
                    1,
                    c.items.len() as int,
                    if plural {
                        inner
                    } else {
                        scope
                    },
                    false,
                )
            },
            _ => before,
        }
    }
}

/// The walk after `items[from..k]` of a short lambda `(| a b | body)` have been checked.
/// Up to the closing `|`, symbols are bound in the scope `inner`; after it, every item is
/// checked in that scope.
pub open spec fn walk_pipe(ctx: Context, w: Walk, items: Seq<Node>, from: int, k: int, inner: int) -> Walk
    decreases items, k,
{
    if k <= from || k > items.len() || from < 0 {
        w
    } else {
        let before = walk_pipe(ctx, w, items, from, k - 1, inner);
        let item = items[k - 1];
        if pipe_closed(items, from, k - 1) {
            walk_expr(ctx, before, item, inner, false)
        } else {
            match item.stripped_symbol_text() {
                Some(name) => if name == seq!['|'] {
                    before
                } else {
                    before.bind(inner, name)
                },
                None => before,
            }
        }
    }
}

/// The walk after `items[from..k]`, the arguments of `require`, have been checked. A
/// string names a module, whose provided names are bound in `scope`; an s-expression
/// picks names of a module.
pub open spec fn walk_require(ctx: Context, w: Walk, items: Seq<Node>, from: int, k: int, scope: int) -> Walk
    decreases k - from,
{
    if k <= from || k > items.len() || from < 0 {
        w
    } else {
        let before = walk_require(ctx, w, items, from, k - 1, scope);
        let item = items[k - 1];
        if !item.is_not_comment_or_newlines() {
            before
        } else {
            match item {
                Node::Atomic(a) => if a.typ == AtomicType::QuotedString {
                    match ctx.provided_by(a.value) {
                        Some(names) => bind_all(before, names, names.len() as int, scope),
                        None => before.with_error(ctx, a.span, NO_MODULE@ + a.value),
                    }
                } else {
                    before.with_error(ctx, a.span, REQUIRE_ARGUMENT@)
                },
                Node::SExpr(c) => walk_require_sexpr(ctx, before, c, scope),
                other => before.with_error(ctx, other.span(), REQUIRE_ARGUMENT@),
            }
        }
    }
}

/// The walk after an s-expression among the arguments of `require` has been checked.
pub open spec fn walk_require_sexpr(ctx: Context, w: Walk, c: Compound, scope: int) -> Walk {
    let items = c.items;
    let first = next_item(items, 0);
    if first >= items.len() || first < 0 {
        w
    } else {
        match items[first].symbol_text() {
            None => w,
            Some(call) => if call == "only_in"@ {
                walk_only_in(ctx, w, items, first + 1, c.span)
            } else if call == "prefix_in"@ {
                w.with_error(ctx, items[first].span(), NO_PREFIX_IN@)
            } else if call == "rename_in"@ {
                walk_rename_in(ctx, w, items, first + 1, c.span, scope)
            } else {
                w.with_error(ctx, items[first].span(), INVALID_REQUIRE@)
            },
        }
    }
}

/// The walk after the names of an `only_in` have been taken: every symbol after the
/// module name is bound at the top level.
pub open spec fn walk_only_in(ctx: Context, w: Walk, items: Seq<Node>, from: int, parent: ShortSpan) -> Walk {
    let module = next_item(items, from);
    if module >= items.len() || module < 0 {
        w.with_error(ctx, parent, NO_MODULE_NAME@)
    } else {
        only_in_names(ctx, w, items, module + 1, items.len() as int)
    }
}

/// The walk after `items[from..k]`, the names of an `only_in`, have been taken.
pub open spec fn only_in_names(ctx: Context, w: Walk, items: Seq<Node>, from: int, k: int) -> Walk
    decreases k - from,
{
    if k <= from || k > items.len() || from < 0 {
        w
    } else {
        let before = only_in_names(ctx, w, items, from, k - 1);
        let item = items[k - 1];
        if !item.is_not_comment_or_newlines() {
            before
        } else {
            match item.stripped_symbol_text() {
                Some(name) => before.bind_top_level(name),
                None => before.with_error(ctx, item.span(), NO_SYMBOL@),
            }
        }
    }
}

/// The walk after a `rename_in` has been checked: the new name of its first pair is bound
/// in `scope`.
pub open spec fn walk_rename_in(
    ctx: Context,
    w: Walk,
    items: Seq<Node>,
    from: int,
    parent: ShortSpan,
    scope: int,
) -> Walk {
    let module = next_item(items, from);
    if module >= items.len() || module < 0 {
        w.with_error(ctx, parent, NO_MODULE_NAME@)
    } else {
        let pair = next_item(items, module + 1);
        if pair >= items.len() || pair < 0 {
            w.with_error(ctx, items[module].span(), NO_SEXPR_AFTER_NAME@)
        } else {
            match items[pair] {
                Node::SExpr(c) => {
                    let old_name = next_item(c.items, 0);
                    let new_name = next_item(c.items, old_name + 1);
                    let old_symbol = if 0 <= old_name < c.items.len() {
                        c.items[old_name].stripped_symbol_text()
                    } else {
                        None
                    };
                    let new_symbol = if 0 <= new_name < c.items.len() {
                        c.items[new_name].stripped_symbol_text()
                    } else {
                        None
                    };
                    let checked = if old_symbol is None || new_symbol is None {
                        w.with_error(ctx, c.span, NO_PAIR_SYMBOLS@)
                    } else {
                        w
                    };
                    match new_symbol {
                        Some(name) => checked.bind(scope, name),
                        None => checked,
                    }
                },
                other => w.with_error(ctx, other.span(), NO_SEXPR@),
            }
        }
    }
}

/// The errors of a file with the top-level nodes `tree`, where the names `top_level` are
/// bound from the start. The file is walked twice: the first walk only collects what the
/// file binds at the top level, the second one reports.
pub open spec fn unbound_errors(ctx: Context, top_level: Seq<Seq<char>>, tree: Seq<Node>) -> Seq<
    Seq<char>,
> {
    let start = Walk {
        env: Bindings { top_level, scopes: Seq::empty() }.with_scope(None),
        errors: Seq::empty(),
    };
    let collected = walk_range(ctx, start, tree, 0, tree.len() as int, 0, false);
    walk_range(
        ctx,
        Walk { env: collected.env, errors: Seq::empty() },
        tree,
        0,
        tree.len() as int,
        0,
        false,
    ).errors
}

} // verus!
