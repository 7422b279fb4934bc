//! The walk that finds identifiers that are used but not bound.

use crate::check::error_tracker::ErrorTracker;
use crate::check::rules::{
    bind_all, bind_symbols, next_item, only_in_names, pipe_closed, provided_from, unbound_errors,
    walk_bindings, walk_define, walk_expr, walk_lambda, walk_let, walk_only_in, walk_pipe,
    walk_range, walk_rename_in, walk_require, walk_require_sexpr, walk_sexpr, Context,
    INVALID_REQUIRE, NO_MODULE, NO_MODULE_NAME, NO_PAIR_SYMBOLS, NO_PREFIX_IN, NO_SEXPR,
    NO_SEXPR_AFTER_NAME, NO_SYMBOL, Provided, REQUIRE_ARGUMENT, Walk,
};
use crate::check::scope::{BindingEnv, Bindings};
use crate::config::same_text;
use crate::error::Error;
use crate::file::FusionFile;
use crate::index::fusion_index::{module_position, module_views, script_position, FusionIndex};
use crate::index::module::{Module, ModuleModel, Named, Provide};
use crate::index::rules::kernel;
use crate::index::script::Script;
use crate::ist::{
    lemma_node_views, lowered_items, node_views, IExpr, IntermediateSyntaxTree, ListData,
};
use crate::model::{texts, AtomicType, Node};
use crate::span::ShortSpan;
use vstd::prelude::*;

verus! {

/// A module that can be required: its name and the names it provides.
pub struct ModuleProvides {
    pub name: String,
    pub provides: Vec<String>,
}

impl View for ModuleProvides {
    type V = Provided;

    open spec fn view(&self) -> Provided {
        Provided { name: self.name@, provides: texts(self.provides@) }
    }
}

/// The views of a sequence of modules.
pub open spec fn provided_views(modules: Seq<ModuleProvides>) -> Seq<Provided> {
    modules.map_values(|m: ModuleProvides| m@)
}

/// Position of the first of `items[from..]` that is neither a comment nor a newline run,
/// or the number of items if there is none.
pub(crate) fn find_item(items: &Vec<IExpr>, from: usize) -> (at: usize)
    ensures
        at == next_item(node_views(items@), from as int),
        at <= items.len(),
        from <= items.len() ==> from <= at,
        at < items.len() ==> node_views(items@)[at as int].is_not_comment_or_newlines(),
{
    broadcast use lemma_node_views;

    let mut i: usize = from;
    let ghost nodes = node_views(items@);
    while i < items.len()
        invariant
            from <= i,
            nodes == node_views(items@),
            nodes.len() == items.len(),
            forall|j: int| 0 <= j < items.len() ==> nodes[j] == items[j]@,
            next_item(nodes, i as int) == next_item(nodes, from as int),
        decreases items.len() - i,
    {
        if items[i].is_not_comment_or_newlines() {
            return i;
        }
        i += 1;
    }
    items.len()
}

/// Walks one file and collects what it binds and the errors in it.
pub struct UnboundFileChecker<'i> {
    modules: &'i Vec<ModuleProvides>,
    env: BindingEnv,
    errors: ErrorTracker,
}

impl<'i> UnboundFileChecker<'i> {
    /// The state of the walk.
    pub closed spec fn walk(&self) -> Walk {
        Walk { env: self.env@, errors: self.errors.messages() }
    }

    /// The file that is walked and the modules around it.
    pub closed spec fn context(&self) -> Context {
        self.errors.context(provided_views(self.modules@))
    }

    /// Starts the walk of the file `file_name` with the text `file_contents`, in which the
    /// names `top_level` are bound from the start. The first scope is scope 0.
    pub fn new(
        modules: &'i Vec<ModuleProvides>,
        file_name: &str,
        file_contents: &str,
        top_level: Vec<String>,
    ) -> (checker: UnboundFileChecker<'i>)
        ensures
            checker.context() == (Context {
                file_name: file_name@,
                contents: file_contents@,
                modules: provided_views(modules@),
            }),
            checker.walk() == (Walk {
                env: (Bindings { top_level: texts(top_level@), scopes: Seq::empty() }).with_scope(
                    None,
                ),
                errors: Seq::empty(),
            }),
            checker.walk().env.well_formed(),
    {
        let mut env = BindingEnv::new(top_level);
        assert(env@.scopes =~= Seq::empty());
        env.scope();
        UnboundFileChecker { modules, env, errors: ErrorTracker::new(file_name, file_contents) }
    }

    /// Goes on with another file; what is bound and the errors found so far stay.
    pub fn switch_file(&mut self, file_name: &str, file_contents: &str)
        ensures
            final(self).context() == (Context {
                file_name: file_name@,
                contents: file_contents@,
                modules: old(self).context().modules,
            }),
            final(self).walk() == old(self).walk(),
    {
        self.errors.switch_file(file_name, file_contents);
    }

    /// Forgets the errors found so far and keeps what is bound.
    pub fn restart(self) -> (checker: UnboundFileChecker<'i>)
        ensures
            checker.context() == self.context(),
            checker.walk() == (Walk { env: self.walk().env, errors: Seq::empty() }),
    {
        let ghost name = self.errors.file_name();
        let ghost text = self.errors.contents();
        let (file_name, file_contents) = self.errors.into_file();
        UnboundFileChecker {
            modules: self.modules,
            env: self.env,
            errors: ErrorTracker::new(file_name.as_str(), file_contents.as_str()),
        }
    }

    /// The errors found.
    pub fn into_errors(self) -> (errors: Vec<Error>)
        ensures
            errors@.map_values(|e: Error| e.message()) == self.walk().errors,
    {
        self.errors.into_errors()
    }

    fn error(&mut self, message: &str, span: ShortSpan)
        ensures
            final(self).context() == old(self).context(),
            final(self).walk() == old(self).walk().with_error(old(self).context(), span, message@),
    {
        self.errors.custom_error(message, span);
    }

    fn bind(&mut self, scope: usize, name: &str)
        requires
            old(self).walk().env.well_formed(),
            scope < old(self).walk().env.scopes.len(),
        ensures
            final(self).context() == old(self).context(),
            final(self).walk() == old(self).walk().bind(scope as int, name@),
            final(self).walk().env.well_formed(),
            final(self).walk().env.scopes.len() == old(self).walk().env.scopes.len(),
    {
        self.env.bind(scope, name.to_owned());
    }

    fn bind_top_level(&mut self, name: &str)
        requires
            old(self).walk().env.well_formed(),
        ensures
            final(self).context() == old(self).context(),
            final(self).walk() == old(self).walk().bind_top_level(name@),
            final(self).walk().env.well_formed(),
            final(self).walk().env.scopes.len() == old(self).walk().env.scopes.len(),
    {
        self.env.bind_top_level(name.to_owned());
    }

    fn open_scope(&mut self, scope: usize) -> (inner: usize)
        requires
            old(self).walk().env.well_formed(),
            scope < old(self).walk().env.scopes.len(),
        ensures
            final(self).context() == old(self).context(),
            final(self).walk() == old(self).walk().open_scope(scope as int),
            inner == old(self).walk().fresh(),
            final(self).walk().env.well_formed(),
            final(self).walk().env.scopes.len() == old(self).walk().env.scopes.len() + 1,
    {
        self.env.new_scope(scope)
    }

    /// Binds every symbol among `items[from..]` in `scope`.
    fn bind_symbols(&mut self, items: &Vec<IExpr>, from: usize, scope: usize)
        requires
            old(self).walk().env.well_formed(),
            scope < old(self).walk().env.scopes.len(),
        ensures
            final(self).context() == old(self).context(),
            final(self).walk() == bind_symbols(
                old(self).walk(),
                node_views(items@),
                from as int,
                items.len() as int,
                scope as int,
            ),
            final(self).walk().env.well_formed(),
            final(self).walk().env.scopes.len() == old(self).walk().env.scopes.len(),
    {
        broadcast use lemma_node_views;

        let ghost nodes = node_views(items@);
        let mut i: usize = from;
        while i < items.len()
            invariant
                from <= i,
                nodes == node_views(items@),
                nodes.len() == items.len(),
                forall|j: int| 0 <= j < items.len() ==> nodes[j] == items[j]@,
                self.context() == old(self).context(),
                self.walk().env.well_formed(),
                self.walk().env.scopes.len() == old(self).walk().env.scopes.len(),
                scope < self.walk().env.scopes.len(),
                i <= items.len() ==> self.walk() == bind_symbols(
                    old(self).walk(),
                    nodes,
                    from as int,
                    i as int,
                    scope as int,
                ),
                i > items.len() ==> self.walk() == old(self).walk() && i == from,
            decreases items.len() - i,
        {
            match items[i].stripped_symbol_value() {
                Some(name) => self.bind(scope, name),
                None => {},
            }
            i += 1;
        }
    }

    /// Checks `items[from..]` in `scope`, one after the other.
    fn check_range(&mut self, items: &Vec<IExpr>, from: usize, scope: usize, quoted: bool)
        requires
            old(self).walk().env.well_formed(),
            scope < old(self).walk().env.scopes.len(),
        ensures
            final(self).context() == old(self).context(),
            final(self).walk() == walk_range(
                old(self).context(),
                old(self).walk(),
                node_views(items@),
                from as int,
                items.len() as int,
                scope as int,
                quoted,
            ),
            final(self).walk().env.well_formed(),
            final(self).walk().env.scopes.len() >= old(self).walk().env.scopes.len(),
        decreases items, items.len(),
    {
        broadcast use lemma_node_views;

        let ghost nodes = node_views(items@);
        let mut i: usize = from;
        while i < items.len()
            invariant
                from <= i,
                nodes == node_views(items@),
                nodes.len() == items.len(),
                forall|j: int| 0 <= j < items.len() ==> nodes[j] == items[j]@,
                self.context() == old(self).context(),
                self.walk().env.well_formed(),
                self.walk().env.scopes.len() >= old(self).walk().env.scopes.len(),
                scope < old(self).walk().env.scopes.len(),
                i <= items.len() ==> self.walk() == walk_range(
                    old(self).context(),
                    old(self).walk(),
                    nodes,
                    from as int,
                    i as int,
                    scope as int,
                    quoted,
                ),
                i > items.len() ==> self.walk() == old(self).walk() && i == from,
            decreases items.len() - i,
        {
            self.check_unbound_expr(&items[i], scope, quoted);
            i += 1;
        }
    }

    /// Checks the top-level nodes of a file in scope 0.
    pub fn check_scoped(&mut self, tree: &Vec<IExpr>)
        requires
            old(self).walk().env.well_formed(),
            old(self).walk().env.scopes.len() > 0,
        ensures
            final(self).context() == old(self).context(),
            final(self).walk() == walk_range(
                old(self).context(),
                old(self).walk(),
                node_views(tree@),
                0,
                tree.len() as int,
                0,
                false,
            ),
            final(self).walk().env.well_formed(),
            final(self).walk().env.scopes.len() > 0,
    {
        self.check_range(tree, 0, 0, false);
    }

    fn check_unbound_expr(&mut self, expr: &IExpr, scope: usize, quoted: bool)
        requires
            old(self).walk().env.well_formed(),
            scope < old(self).walk().env.scopes.len(),
        ensures
            final(self).context() == old(self).context(),
            final(self).walk() == walk_expr(
                old(self).context(),
                old(self).walk(),
                expr@,
                scope as int,
                quoted,
            ),
            final(self).walk().env.well_formed(),
            final(self).walk().env.scopes.len() >= old(self).walk().env.scopes.len(),
        decreases expr, 0int,
    {
        match expr {
            IExpr::Atomic(data) => match data.typ {
                AtomicType::Symbol => {
                    let name = match expr.stripped_symbol_value() {
                        Some(name) => name,
                        None => data.value.as_str(),
                    };
                    if !quoted && !self.env.contains(scope, name) {
                        self.errors.unbound_ident(data.value.as_str(), data.span);
                    }
                },
                _ => {},
            },
            IExpr::List(data) => self.check_range(&data.items, 0, scope, quoted),
            IExpr::SExpr(data) => self.check_unbound_sexpr(data, scope, quoted),
            IExpr::Struct(data) => self.check_range(&data.items, 0, scope, quoted),
            IExpr::Clob(_) => {},
            IExpr::CommentBlock(_) => {},
            IExpr::CommentLine(_) => {},
            IExpr::MultilineString(_) => {},
            IExpr::Newlines(_) => {},
            IExpr::StructKey(_) => {},
        }
    }

    fn check_unbound_sexpr(&mut self, sexpr: &ListData, scope: usize, quoted: bool)
        requires
            old(self).walk().env.well_formed(),
            scope < old(self).walk().env.scopes.len(),
        ensures
            final(self).context() == old(self).context(),
            final(self).walk() == walk_sexpr(
                old(self).context(),
                old(self).walk(),
                sexpr@,
                scope as int,
                quoted,
            ),
            final(self).walk().env.well_formed(),
            final(self).walk().env.scopes.len() >= old(self).walk().env.scopes.len(),
        decreases sexpr, 0int,
    {
        broadcast use lemma_node_views;

        let items = &sexpr.items;
        let first = find_item(items, 0);
        if first >= items.len() {
            return ;
        }
        let first_value = &items[first];
        let function_call = match first_value.stripped_symbol_value() {
            Some(name) => name,
            None => {
                return ;
            },
        };
        let rest = first + 1;
        if quoted {
            self.check_range(items, rest, scope, !same_text(function_call, "unquote"));
        } else if same_text(function_call, "define") {
            self.check_unbound_define(items, rest, scope);
        } else if same_text(function_call, "lambda") {
            self.check_unbound_lambda(items, rest, scope);
        } else if same_text(function_call, "let") {
            self.check_unbound_let(items, rest, scope, false);
        } else if same_text(function_call, "lets") {
            self.check_unbound_let(items, rest, scope, true);
        } else if same_text(function_call, "module") {
            self.check_unbound_module(items, rest, scope);
        } else if same_text(function_call, "require") {
            self.check_require(items, rest, scope);
        } else if same_text(function_call, "quasiquote") {
            self.check_range(items, rest, scope, true);
        } else if same_text(function_call, "quote") {
        } else if same_text(function_call, "|") {
            proof {
                reveal_strlit("|");
                assert("|"@ =~= seq!['|']);
            }
            self.check_unbound_pipe_lambda(items, rest, scope);
        } else {
            if !self.env.contains(scope, function_call) {
                self.errors.unbound_ident(function_call, first_value.span());
            }
            self.check_range(items, rest, scope, false);
        }
    }

    /// Checks what follows the name and the language of a module.
    fn check_unbound_module(&mut self, items: &Vec<IExpr>, from: usize, scope: usize)
        requires
            old(self).walk().env.well_formed(),
            scope < old(self).walk().env.scopes.len(),
            from <= items.len(),
        ensures
            final(self).context() == old(self).context(),
            final(self).walk() == ({
                let name = next_item(node_views(items@), from as int);
                let language = next_item(node_views(items@), name + 1);
                walk_range(
                    old(self).context(),
                    old(self).walk(),
                    node_views(items@),
                    language + 1,
                    items.len() as int,
                    scope as int,
                    false,
                )
            }),
            final(self).walk().env.well_formed(),
            final(self).walk().env.scopes.len() >= old(self).walk().env.scopes.len(),
        decreases items, items.len() + 1,
    {
        let name = find_item(items, from);
        if name >= items.len() {
            return ;
        }
        let language = find_item(items, name + 1);
        if language >= items.len() {
            return ;
        }
        self.check_range(items, language + 1, scope, false);
    }

    fn check_unbound_define(&mut self, items: &Vec<IExpr>, from: usize, scope: usize)
        requires
            old(self).walk().env.well_formed(),
            scope < old(self).walk().env.scopes.len(),
            from <= items.len(),
        ensures
            final(self).context() == old(self).context(),
            final(self).walk() == walk_define(
                old(self).context(),
                old(self).walk(),
                node_views(items@),
                from as int,
                scope as int,
            ),
            final(self).walk().env.well_formed(),
            final(self).walk().env.scopes.len() >= old(self).walk().env.scopes.len(),
        decreases items, items.len() + 1,
    {
        broadcast use lemma_node_views;

        let target = find_item(items, from);
        if target >= items.len() {
            return ;
        }
        let arg_list = &items[target];
        let new_scope = self.open_scope(scope);
        match arg_list {
            IExpr::SExpr(data) => {
                if data.items.len() >= 1 {
                    match data.items[0].stripped_symbol_value() {
                        Some(name) => {
                            self.bind_top_level(name);
                            self.bind_symbols(&data.items, 1, new_scope);
                        },
                        None => {},
                    }
                }
            },
            other => match other.stripped_symbol_value() {
                Some(name) => self.bind_top_level(name),
                None => {},
            },
        }
        self.check_range(items, target + 1, new_scope, false);
    }

    fn check_unbound_lambda(&mut self, items: &Vec<IExpr>, from: usize, scope: usize)
        requires
            old(self).walk().env.well_formed(),
            scope < old(self).walk().env.scopes.len(),
            from <= items.len(),
        ensures
            final(self).context() == old(self).context(),
            final(self).walk() == walk_lambda(
                old(self).context(),
                old(self).walk(),
                node_views(items@),
                from as int,
                scope as int,
            ),
            final(self).walk().env.well_formed(),
            final(self).walk().env.scopes.len() >= old(self).walk().env.scopes.len(),
        decreases items, items.len() + 1,
    {
        broadcast use lemma_node_views;

        let target = find_item(items, from);
        if target >= items.len() {
            return ;
        }
        let arg_list = &items[target];
        let new_scope = self.open_scope(scope);
        match arg_list {
            IExpr::SExpr(data) => self.bind_symbols(&data.items, 0, new_scope),
            other => match other.stripped_symbol_value() {
                Some(name) => self.bind(new_scope, name),
                None => {},
            },
        }
        self.check_range(items, target + 1, new_scope, false);
    }

    fn check_unbound_let(&mut self, items: &Vec<IExpr>, from: usize, scope: usize, plural: bool)
        requires
            old(self).walk().env.well_formed(),
            scope < old(self).walk().env.scopes.len(),
            from <= items.len(),
        ensures
            final(self).context() == old(self).context(),
            final(self).walk() == walk_let(
                old(self).context(),
                old(self).walk(),
                node_views(items@),
                from as int,
                scope as int,
                plural,
            ),
            final(self).walk().env.well_formed(),
            final(self).walk().env.scopes.len() >= old(self).walk().env.scopes.len(),
        decreases items, items.len() + 1,
    {
        broadcast use lemma_node_views;

        let new_scope = self.open_scope(scope);
        let target = find_item(items, from);
        if target >= items.len() {
            return ;
        }
        match &items[target] {
            IExpr::List(list_data) => {
                self.check_let_bindings(&list_data.items, scope, new_scope, plural);
                self.check_range(items, target + 1, new_scope, false);
            },
            _ => {},
        }
    }

    /// Checks the bindings of a `let`.
    fn check_let_bindings(
        &mut self,
        bindings: &Vec<IExpr>,
        scope: usize,
        new_scope: usize,
        plural: bool,
    )
        requires
            old(self).walk().env.well_formed(),
            scope < old(self).walk().env.scopes.len(),
            new_scope < old(self).walk().env.scopes.len(),
        ensures
            final(self).context() == old(self).context(),
            final(self).walk() == walk_bindings(
                old(self).context(),
                old(self).walk(),
                node_views(bindings@),
                bindings.len() as int,
                scope as int,
                new_scope as int,
                plural,
            ),
            final(self).walk().env.well_formed(),
            final(self).walk().env.scopes.len() >= old(self).walk().env.scopes.len(),
        decreases bindings, bindings.len(),
    {
        broadcast use lemma_node_views;

        let ghost nodes = node_views(bindings@);
        let mut i: usize = 0;
        while i < bindings.len()
            invariant
                i <= bindings.len(),
                nodes == node_views(bindings@),
                nodes.len() == bindings.len(),
                forall|j: int| 0 <= j < bindings.len() ==> nodes[j] == bindings[j]@,
                self.context() == old(self).context(),
                self.walk().env.well_formed(),
                self.walk().env.scopes.len() >= old(self).walk().env.scopes.len(),
                scope < old(self).walk().env.scopes.len(),
                new_scope < old(self).walk().env.scopes.len(),
                self.walk() == walk_bindings(
                    old(self).context(),
                    old(self).walk(),
                    nodes,
                    i as int,
                    scope as int,
                    new_scope as int,
                    plural,
                ),
            decreases bindings.len() - i,
        {
            match &bindings[i] {
                IExpr::SExpr(data) => {
                    let definition = &data.items;
                    if definition.len() > 1 {
                        match definition[0].stripped_symbol_value() {
                            Some(name) => self.bind(new_scope, name),
                            None => {},
                        }
                    }
                    self.check_range(
                        definition,
                        1,
                        if plural {
                            new_scope
                        } else {
                            scope
                        },
                        false,
                    );
                },
                _ => {},
            }
            i += 1;
        }
    }

    fn check_unbound_pipe_lambda(&mut self, items: &Vec<IExpr>, from: usize, scope: usize)
        requires
            old(self).walk().env.well_formed(),
            scope < old(self).walk().env.scopes.len(),
            from <= items.len(),
        ensures
            final(self).context() == old(self).context(),
            final(self).walk() == walk_pipe(
                old(self).context(),
                old(self).walk().open_scope(scope as int),
                node_views(items@),
                from as int,
                items.len() as int,
                old(self).walk().fresh(),
            ),
            final(self).walk().env.well_formed(),
            final(self).walk().env.scopes.len() >= old(self).walk().env.scopes.len(),
        decreases items, items.len() + 1,
    {
        broadcast use lemma_node_views;

        let new_scope = self.open_scope(scope);
        let ghost opened = self.walk();
        let ghost nodes = node_views(items@);
        let mut arg_list = true;
        let mut i: usize = from;
        while i < items.len()
            invariant
                from <= i <= items.len(),
                nodes == node_views(items@),
                nodes.len() == items.len(),
                forall|j: int| 0 <= j < items.len() ==> nodes[j] == items[j]@,
                self.context() == old(self).context(),
                self.walk().env.well_formed(),
                self.walk().env.scopes.len() >= opened.env.scopes.len(),
                new_scope < opened.env.scopes.len(),
                arg_list == !pipe_closed(nodes, from as int, i as int),
                self.walk() == walk_pipe(
                    old(self).context(),
                    opened,
                    nodes,
                    from as int,
                    i as int,
                    new_scope as int,
                ),
            decreases items.len() - i,
        {
            let item = &items[i];
            let ghost closed_before = pipe_closed(nodes, from as int, i as int);
            if arg_list {
                match item.stripped_symbol_value() {
                    Some(name) => {
                        proof {
                            reveal_strlit("|");
                            assert("|"@ =~= seq!['|']);
                        }
                        if same_text(name, "|") {
                            arg_list = false;
                            assert(pipe_closed(nodes, from as int, i + 1)) by {
                                assert(nodes[i as int].stripped_symbol_text() == Some(seq!['|']));
                            }
                        } else {
                            self.bind(new_scope, name);
                        }
                    },
                    None => {},
                }
            } else {
                self.check_unbound_expr(item, new_scope, false);
            }
            i += 1;
        }
    }

    /// The names that the first module called `name` provides.
    fn find_module(&self, name: &str) -> (found: Option<&'i ModuleProvides>)
        ensures
            match found {
                Some(module) => self.context().provided_by(name@) == Some(module@.provides),
                None => self.context().provided_by(name@) is None,
            },
    {
        let modules = self.modules;
        let ghost all = provided_views(modules@);
        let mut i: usize = 0;
        while i < modules.len()
            invariant
                i <= modules.len(),
                modules == self.modules,
                all == provided_views(modules@),
                provided_from(all, name@, i as int) == provided_from(all, name@, 0),
            decreases modules.len() - i,
        {
            assert(all[i as int] == modules[i as int]@);
            if same_text(modules[i].name.as_str(), name) {
                assert(provided_from(all, name@, i as int) == Some(all[i as int].provides));
                assert(self.context().modules == all);
                return Some(&modules[i]);
            }
            i += 1;
        }
        None
    }

    /// Binds `names` in `scope`.
    fn bind_names(&mut self, names: &Vec<String>, scope: usize)
        requires
            old(self).walk().env.well_formed(),
            scope < old(self).walk().env.scopes.len(),
        ensures
            final(self).context() == old(self).context(),
            final(self).walk() == bind_all(
                old(self).walk(),
                texts(names@),
                names.len() as int,
                scope as int,
            ),
            final(self).walk().env.well_formed(),
            final(self).walk().env.scopes.len() == old(self).walk().env.scopes.len(),
    {
        let mut i: usize = 0;
        while i < names.len()
            invariant
                i <= names.len(),
                self.context() == old(self).context(),
                self.walk().env.well_formed(),
                self.walk().env.scopes.len() == old(self).walk().env.scopes.len(),
                scope < self.walk().env.scopes.len(),
                self.walk() == bind_all(old(self).walk(), texts(names@), i as int, scope as int),
            decreases names.len() - i,
        {
            assert(texts(names@)[i as int] == names[i as int]@);
            self.bind(scope, names[i].as_str());
            i += 1;
        }
    }

    fn check_require(&mut self, items: &Vec<IExpr>, from: usize, scope: usize)
        requires
            old(self).walk().env.well_formed(),
            scope < old(self).walk().env.scopes.len(),
            from <= items.len(),
        ensures
            final(self).context() == old(self).context(),
            final(self).walk() == walk_require(
                old(self).context(),
                old(self).walk(),
                node_views(items@),
                from as int,
                items.len() as int,
                scope as int,
            ),
            final(self).walk().env.well_formed(),
            final(self).walk().env.scopes.len() >= old(self).walk().env.scopes.len(),
    {
        broadcast use lemma_node_views;

        let ghost nodes = node_views(items@);
        let mut i: usize = from;
        while i < items.len()
            invariant
                from <= i <= items.len(),
                nodes == node_views(items@),
                nodes.len() == items.len(),
                forall|j: int| 0 <= j < items.len() ==> nodes[j] == items[j]@,
                self.context() == old(self).context(),
                self.walk().env.well_formed(),
                self.walk().env.scopes.len() >= old(self).walk().env.scopes.len(),
                scope < old(self).walk().env.scopes.len(),
                self.walk() == walk_require(
                    old(self).context(),
                    old(self).walk(),
                    nodes,
                    from as int,
                    i as int,
                    scope as int,
                ),
            decreases items.len() - i,
        {
            let expr = &items[i];
            if expr.is_not_comment_or_newlines() {
                match expr {
                    IExpr::Atomic(data) => match data.typ {
                        AtomicType::QuotedString => {
                            match self.find_module(data.value.as_str()) {
                                Some(module) => self.bind_names(&module.provides, scope),
                                None => {
                                    let mut message = NO_MODULE.to_owned();
                                    message.append(data.value.as_str());
                                    self.error(message.as_str(), data.span);
                                },
                            }
                        },
                        _ => self.error(REQUIRE_ARGUMENT, data.span),
                    },
                    IExpr::SExpr(data) => self.check_require_sexpr(data, scope),
                    other => self.error(REQUIRE_ARGUMENT, other.span()),
                }
            }
            i += 1;
        }
    }

    fn check_require_sexpr(&mut self, sexpr: &ListData, scope: usize)
        requires
            old(self).walk().env.well_formed(),
            scope < old(self).walk().env.scopes.len(),
        ensures
            final(self).context() == old(self).context(),
            final(self).walk() == walk_require_sexpr(
                old(self).context(),
                old(self).walk(),
                sexpr@,
                scope as int,
            ),
            final(self).walk().env.well_formed(),
            final(self).walk().env.scopes.len() >= old(self).walk().env.scopes.len(),
    {
        broadcast use lemma_node_views;

        let items = &sexpr.items;
        let first = find_item(items, 0);
        if first >= items.len() {
            return ;
        }
        let first_value = &items[first];
        if !first_value.is_symbol() {
            return ;
        }
        let function_call = first_value.symbol_value().as_str();
        if same_text(function_call, "only_in") {
            self.check_require_only_in(items, first + 1, sexpr.span);
        } else if same_text(function_call, "prefix_in") {
            self.error(NO_PREFIX_IN, first_value.span());
        } else if same_text(function_call, "rename_in") {
            self.check_require_rename_in(items, first + 1, sexpr.span, scope);
        } else {
            self.error(INVALID_REQUIRE, first_value.span());
        }
    }

    fn check_require_only_in(&mut self, items: &Vec<IExpr>, from: usize, parent_span: ShortSpan)
        requires
            old(self).walk().env.well_formed(),
            from <= items.len(),
        ensures
            final(self).context() == old(self).context(),
            final(self).walk() == walk_only_in(
                old(self).context(),
                old(self).walk(),
                node_views(items@),
                from as int,
                parent_span,
            ),
            final(self).walk().env.well_formed(),
            final(self).walk().env.scopes.len() == old(self).walk().env.scopes.len(),
    {
        broadcast use lemma_node_views;

        let module = find_item(items, from);
        if module >= items.len() {
            self.error(NO_MODULE_NAME, parent_span);
            return ;
        }
        let ghost nodes = node_views(items@);
        let mut i: usize = module + 1;
        while i < items.len()
            invariant
                module + 1 <= i <= items.len(),
                nodes == node_views(items@),
                nodes.len() == items.len(),
                forall|j: int| 0 <= j < items.len() ==> nodes[j] == items[j]@,
                self.context() == old(self).context(),
                self.walk().env.well_formed(),
                self.walk().env.scopes.len() == old(self).walk().env.scopes.len(),
                self.walk() == only_in_names(
                    old(self).context(),
                    old(self).walk(),
                    nodes,
                    module + 1,
                    i as int,
                ),
            decreases items.len() - i,
        {
            let item = &items[i];
            if item.is_not_comment_or_newlines() {
                match item.stripped_symbol_value() {
                    Some(name) => self.bind_top_level(name),
                    None => self.error(NO_SYMBOL, item.span()),
                }
            }
            i += 1;
        }
    }

    fn check_require_rename_in(
        &mut self,
        items: &Vec<IExpr>,
        from: usize,
        parent_span: ShortSpan,
        scope: usize,
    )
        requires
            old(self).walk().env.well_formed(),
            scope < old(self).walk().env.scopes.len(),
            from <= items.len(),
        ensures
            final(self).context() == old(self).context(),
            final(self).walk() == walk_rename_in(
                old(self).context(),
                old(self).walk(),
                node_views(items@),
                from as int,
                parent_span,
                scope as int,
            ),
            final(self).walk().env.well_formed(),
            final(self).walk().env.scopes.len() == old(self).walk().env.scopes.len(),
    {
        broadcast use lemma_node_views;

        let module = find_item(items, from);
        if module >= items.len() {
            self.error(NO_MODULE_NAME, parent_span);
            return ;
        }
        let pair = find_item(items, module + 1);
        if pair >= items.len() {
            self.error(NO_SEXPR_AFTER_NAME, items[module].span());
            return ;
        }
        match &items[pair] {
            IExpr::SExpr(list_data) => {
                let names = &list_data.items;
                let old_name = find_item(names, 0);
                let from_symbol = if old_name < names.len() {
                    names[old_name].stripped_symbol_value()
                } else {
                    None
                };
                let new_name = if old_name < names.len() {
                    find_item(names, old_name + 1)
                } else {
                    names.len()
                };
                let to_symbol = if new_name < names.len() {
                    names[new_name].stripped_symbol_value()
                } else {
                    None
                };
                if from_symbol.is_none() || to_symbol.is_none() {
                    self.error(NO_PAIR_SYMBOLS, list_data.span);
                }
                match to_symbol {
                    Some(name) => self.bind(scope, name),
                    None => {},
                }
            },
            other => self.error(NO_SEXPR, other.span()),
        }
    }
}

/// The errors about identifiers that the file `file_name` uses without binding them, where
/// the names `top_level` are bound from the start and `modules` can be required.
pub fn check(
    modules: &Vec<ModuleProvides>,
    file_name: &str,
    file_contents: &str,
    top_level: Vec<String>,
    tree: &IntermediateSyntaxTree,
) -> (errors: Vec<Error>)
    ensures
        errors@.map_values(|e: Error| e.message()) == unbound_errors(
            Context {
                file_name: file_name@,
                contents: file_contents@,
                modules: provided_views(modules@),
            },
            texts(top_level@),
            tree@,
        ),
{
    let mut collector = UnboundFileChecker::new(modules, file_name, file_contents, top_level);
    // Walk once to find what the file binds at the top level
    collector.check_scoped(&tree.expressions);
    let mut checker = collector.restart();
    checker.check_scoped(&tree.expressions);
    checker.into_errors()
}

/// What a check is made of: a module or a script of the index, by its name.
#[derive(Debug)]
pub enum ModuleOrScript {
    Module(String),
    Script(String),
}

/// A file as the rules see it: its name, its text and its tree. A file whose tree cannot
/// be lowered counts as empty.
pub struct FileModel {
    pub file_name: Seq<char>,
    pub contents: Seq<char>,
    pub tree: Seq<Node>,
}

/// The file as the rules see it.
pub open spec fn file_model(file: FusionFile) -> FileModel {
    FileModel {
        file_name: file.file_name@,
        contents: file.contents@,
        tree: match lowered_items(crate::ast::node_views(file.ast@)) {
            Ok(tree) => tree,
            Err(_) => Seq::empty(),
        },
    }
}

/// The files as the rules see them.
pub open spec fn file_models(files: Seq<FusionFile>) -> Seq<FileModel> {
    files.map_values(|f: FusionFile| file_model(f))
}

/// The names among `provides`.
pub open spec fn names_of(provides: Seq<Named>) -> Seq<Seq<char>> {
    provides.map_values(|n: Named| n.name)
}

/// The modules of an index as the rules of the check see them.
pub open spec fn provided_by_modules(modules: Seq<ModuleModel>) -> Seq<Provided> {
    modules.map_values(|m: ModuleModel| Provided { name: m.name, provides: names_of(m.provides) })
}

/// The names that the module `name` provides, and those of its language, of the language
/// of its language, and so on, up to the kernel or for `fuel` steps.
pub open spec fn chain_provides(modules: Seq<ModuleModel>, name: Seq<char>, fuel: nat) -> Seq<
    Seq<char>,
>
    decreases fuel,
{
    match module_position(modules, name, 0) {
        None => Seq::empty(),
        Some(i) => names_of(modules[i].provides) + (if modules[i].language != kernel() && fuel
            > 0 {
            chain_provides(modules, modules[i].language, (fuel - 1) as nat)
        } else {
            Seq::empty()
        }),
    }
}

/// The names that the first `k` of the modules `names` provide, each with its chain.
pub open spec fn chains_provide(modules: Seq<ModuleModel>, names: Seq<Seq<char>>, k: int) -> Seq<
    Seq<char>,
>
    decreases k,
{
    if k <= 0 || k > names.len() {
        Seq::empty()
    } else {
        chains_provide(modules, names, k - 1) + chain_provides(
            modules,
            names[k - 1],
            modules.len(),
        )
    }
}

/// The walk after the first `k` of `files` have been walked, one after the other.
pub open spec fn walk_files(modules: Seq<Provided>, w: Walk, files: Seq<FileModel>, k: int) -> Walk
    decreases k,
{
    if k <= 0 || k > files.len() {
        w
    } else {
        let file = files[k - 1];
        walk_range(
            Context { file_name: file.file_name, contents: file.contents, modules },
            walk_files(modules, w, files, k - 1),
            file.tree,
            0,
            file.tree.len() as int,
            0,
            false,
        )
    }
}

/// The errors of `files`, where the names `top_level` are bound from the start. The files
/// are walked twice: first to collect what they bind at the top level, then to report.
pub open spec fn errors_of_files(
    modules: Seq<Provided>,
    top_level: Seq<Seq<char>>,
    files: Seq<FileModel>,
) -> Seq<Seq<char>> {
    let start = Walk {
        env: Bindings { top_level, scopes: Seq::empty() }.with_scope(None),
        errors: Seq::empty(),
    };
    let collected = walk_files(modules, start, files, files.len() as int);
    walk_files(
        modules,
        Walk { env: collected.env, errors: Seq::empty() },
        files,
        files.len() as int,
    ).errors
}

/// What the check of a module or a script of an index reports.
pub open spec fn resource_errors(
    modules: Seq<ModuleModel>,
    scripts: Seq<Script>,
    resource: ModuleOrScript,
) -> Seq<Seq<char>> {
    match resource {
        ModuleOrScript::Module(name) => match module_position(modules, name@, 0) {
            Some(i) => errors_of_files(
                provided_by_modules(modules),
                chain_provides(modules, name@, modules.len()),
                seq![
                    FileModel {
                        file_name: modules[i].file_name,
                        contents: modules[i].contents,
                        tree: match lowered_items(modules[i].tree) {
                            Ok(tree) => tree,
                            Err(_) => Seq::empty(),
                        },
                    },
                ],
            ),
            None => seq![NO_MODULE@ + name@],
        },
        ModuleOrScript::Script(name) => match script_position(scripts, name@, 0) {
            Some(i) => errors_of_files(
                provided_by_modules(modules),
                chains_provide(
                    modules,
                    texts(scripts[i].top_level_modules@),
                    scripts[i].top_level_modules.len() as int,
                ) + texts(scripts[i].global_bindings@),
                file_models(scripts[i].files@),
            ),
            None => seq![NO_MODULE@ + name@],
        },
    }
}

/// Appends copies of `names` to `out`.
fn push_names(out: &mut Vec<String>, names: &Vec<String>)
    ensures
        texts(final(out)@) == texts(old(out)@) + texts(names@),
{
    let ghost start = texts(out@);
    let mut i: usize = 0;
    while i < names.len()
        invariant
            i <= names.len(),
            texts(out@) == start + texts(names@).take(i as int),
        decreases names.len() - i,
    {
        let ghost before = texts(out@);
        out.push(names[i].clone());
        assert(texts(out@) =~= before.push(names[i as int]@));
        assert(texts(names@).take(i + 1) =~= texts(names@).take(i as int).push(names[i as int]@));
        i += 1;
        assert(texts(out@) =~= start + texts(names@).take(i as int));
    }
    assert(texts(names@).take(names.len() as int) =~= texts(names@));
}

/// Appends the names among `provides` to `out`.
fn push_provided(out: &mut Vec<String>, provides: &Vec<Provide>)
    ensures
        texts(final(out)@) == texts(old(out)@) + names_of(
            crate::index::module::provide_views(provides@),
        ),
{
    let ghost start = texts(out@);
    let ghost all = names_of(crate::index::module::provide_views(provides@));
    let mut i: usize = 0;
    while i < provides.len()
        invariant
            i <= provides.len(),
            all == names_of(crate::index::module::provide_views(provides@)),
            texts(out@) == start + all.take(i as int),
        decreases provides.len() - i,
    {
        let ghost before = texts(out@);
        out.push(provides[i].name.clone());
        assert(texts(out@) =~= before.push(provides[i as int].name@));
        assert(all[i as int] == provides[i as int].name@);
        assert(all.take(i + 1) =~= all.take(i as int).push(provides[i as int].name@));
        i += 1;
        assert(texts(out@) =~= start + all.take(i as int));
    }
    assert(all.take(provides.len() as int) =~= all);
}

/// Checks the modules and scripts of an index.
pub struct UnboundChecker<'i> {
    config: &'i crate::config::FusionConfig,
    index: &'i FusionIndex,
}

impl<'i> UnboundChecker<'i> {
    pub fn new(config: &'i crate::config::FusionConfig, index: &'i FusionIndex) -> (checker:
        UnboundChecker<'i>)
        ensures
            checker.modules() == index.module_models(),
            checker.scripts() == index.script_list(),
    {
        UnboundChecker { config, index }
    }

    /// The modules of the index.
    pub closed spec fn modules(&self) -> Seq<ModuleModel> {
        self.index.module_models()
    }

    /// The scripts of the index.
    pub closed spec fn scripts(&self) -> Seq<Script> {
        self.index.script_list()
    }

    /// The modules of the index with the names that each provides.
    fn provided_table(&self) -> (table: Vec<ModuleProvides>)
        ensures
            provided_views(table@) == provided_by_modules(self.modules()),
    {
        let modules = self.index.module_iter();
        let mut table: Vec<ModuleProvides> = Vec::new();
        let mut i: usize = 0;
        while i < modules.len()
            invariant
                i <= modules.len(),
                module_views(modules@) == self.modules(),
                table.len() == i,
                forall|j: int|
                    0 <= j < i ==> table[j]@ == (Provided {
                        name: modules[j]@.name,
                        provides: names_of(modules[j]@.provides),
                    }),
            decreases modules.len() - i,
        {
            let mut provides: Vec<String> = Vec::new();
            assert(texts(provides@) =~= Seq::<Seq<char>>::empty());
            push_provided(&mut provides, &modules[i].provides);
            assert(texts(provides@) =~= names_of(modules[i as int]@.provides));
            table.push(ModuleProvides { name: modules[i].name.clone(), provides });
            i += 1;
        }
        assert(provided_views(table@) =~= provided_by_modules(self.modules())) by {
            assert forall|j: int| 0 <= j < modules.len() implies provided_views(table@)[j]
                == provided_by_modules(self.modules())[j] by {
                assert(self.modules()[j] == modules[j]@);
            }
        }
        table
    }

    /// The names that the module `name` provides, with those of its language chain.
    fn resolve_all_provides(&self, out: &mut Vec<String>, name: &str)
        ensures
            texts(final(out)@) == texts(old(out)@) + chain_provides(
                self.modules(),
                name@,
                self.modules().len(),
            ),
    {
        let ghost start = texts(out@);
        let mut fuel: usize = self.index.module_iter().len();
        let mut current: String = name.to_owned();
        let ghost total = chain_provides(self.modules(), name@, self.modules().len());
        let ghost done = Seq::<Seq<char>>::empty();
        assert(start + done =~= start);
        assert(done + total =~= total);
        loop
            invariant
                start == texts(old(out)@),
                total == chain_provides(self.modules(), name@, self.modules().len()),
                texts(out@) == start + done,
                done + chain_provides(self.modules(), current@, fuel as nat) == total,
            decreases fuel,
        {
            match self.index.get_module(current.as_str()) {
                None => {
                    assert(done + Seq::<Seq<char>>::empty() =~= done);
                    assert(start + total =~= start + done);
                    return ;
                },
                Some(module) => {
                    let ghost here = names_of(module@.provides);
                    push_provided(out, &module.provides);
                    proof {
                        reveal_strlit("/fusion/private/kernel");
                    }
                    if !crate::config::same_text(
                        module.language.as_str(),
                        crate::index::fusion_index::TOP_LEVEL_MODULE_NAME,
                    ) && fuel > 0 {
                        proof {
                            let rest = chain_provides(
                                self.modules(),
                                module@.language,
                                (fuel - 1) as nat,
                            );
                            assert((done + here) + rest =~= done + (here + rest));
                            assert(start + (done + here) =~= (start + done) + here);
                            done = done + here;
                        }
                        current = module.language.clone();
                        fuel -= 1;
                    } else {
                        proof {
                            assert(here + Seq::<Seq<char>>::empty() =~= here);
                            assert(start + (done + here) =~= (start + done) + here);
                            assert(total == done + here);
                        }
                        return ;
                    }
                },
            }
        }
    }

    /// Walks `files` twice, with the names `top_level` bound from the start, and gives
    /// the errors of the second walk.
    fn check_files(&self, top_level: Vec<String>, files: &Vec<&FusionFile>) -> (errors: Vec<Error>)
        ensures
            errors@.map_values(|e: Error| e.message()) == errors_of_files(
                provided_by_modules(self.modules()),
                texts(top_level@),
                files@.map_values(|f: &FusionFile| file_model(*f)),
            ),
    {
        let table = self.provided_table();
        let ghost models = files@.map_values(|f: &FusionFile| file_model(*f));
        let ghost provided = provided_by_modules(self.modules());
        let mut checker = UnboundFileChecker::new(&table, "", "", top_level);
        let ghost start = checker.walk();
        let mut i: usize = 0;
        while i < files.len()
            invariant
                i <= files.len(),
                models == files@.map_values(|f: &FusionFile| file_model(*f)),
                provided == provided_views(table@),
                checker.context().modules == provided,
                checker.walk().env.well_formed(),
                checker.walk().env.scopes.len() > 0,
                checker.walk() == walk_files(provided, start, models, i as int),
            decreases files.len() - i,
        {
            let file = files[i];
            assert(models[i as int] == file_model(*file));
            checker.switch_file(file.file_name.as_str(), file.contents.as_str());
            match IntermediateSyntaxTree::from_ast(&file.ast) {
                Ok(tree) => checker.check_scoped(&tree.expressions),
                Err(_) => {},
            }
            i += 1;
        }
        let mut checker = checker.restart();
        let ghost restarted = checker.walk();
        let mut i: usize = 0;
        while i < files.len()
            invariant
                i <= files.len(),
                models == files@.map_values(|f: &FusionFile| file_model(*f)),
                provided == provided_views(table@),
                checker.context().modules == provided,
                checker.walk().env.well_formed(),
                checker.walk().env.scopes.len() > 0,
                checker.walk() == walk_files(provided, restarted, models, i as int),
            decreases files.len() - i,
        {
            let file = files[i];
            assert(models[i as int] == file_model(*file));
            checker.switch_file(file.file_name.as_str(), file.contents.as_str());
            match IntermediateSyntaxTree::from_ast(&file.ast) {
                Ok(tree) => checker.check_scoped(&tree.expressions),
                Err(_) => {},
            }
            i += 1;
        }
        checker.into_errors()
    }

    /// The errors about unbound identifiers in a module or a script of the index. For a
    /// name that the index does not know, the one error says so.
    pub fn check(self, resource: ModuleOrScript) -> (errors: Vec<Error>)
        ensures
            errors@.map_values(|e: Error| e.message()) == resource_errors(
                self.modules(),
                self.scripts(),
                resource,
            ),
    {
        match resource {
            ModuleOrScript::Module(module_name) => {
                match self.index.get_module(module_name.as_str()) {
                    Some(module) => {
                        let mut top_level: Vec<String> = Vec::new();
                        assert(texts(top_level@) =~= Seq::<Seq<char>>::empty());
                        self.resolve_all_provides(&mut top_level, module_name.as_str());
                        assert(texts(top_level@) =~= chain_provides(
                            self.modules(),
                            module_name@,
                            self.modules().len(),
                        ));
                        let mut files: Vec<&FusionFile> = Vec::new();
                        files.push(&module.file);
                        assert(files@.map_values(|f: &FusionFile| file_model(*f)) =~= seq![
                            file_model(module.file),
                        ]);
                        self.check_files(top_level, &files)
                    },
                    None => {
                        let mut message = NO_MODULE.to_owned();
                        message.append(module_name.as_str());
                        let mut errors: Vec<Error> = Vec::new();
                        errors.push(Error::Generic(message));
                        assert(errors@.map_values(|e: Error| e.message()) =~= seq![
                            NO_MODULE@ + module_name@,
                        ]);
                        errors
                    },
                }
            },
            ModuleOrScript::Script(script_name) => {
                match self.index.get_script(script_name.as_str()) {
                    Some(script) => {
                        let mut top_level: Vec<String> = Vec::new();
                        assert(texts(top_level@) =~= Seq::<Seq<char>>::empty());
                        let ghost names = texts(script.top_level_modules@);
                        let mut i: usize = 0;
                        while i < script.top_level_modules.len()
                            invariant
                                i <= script.top_level_modules.len(),
                                names == texts(script.top_level_modules@),
                                texts(top_level@) == chains_provide(self.modules(), names, i as int),
                            decreases script.top_level_modules.len() - i,
                        {
                            assert(names[i as int] == script.top_level_modules[i as int]@);
                            self.resolve_all_provides(
                                &mut top_level,
                                script.top_level_modules[i].as_str(),
                            );
                            i += 1;
                        }
                        push_names(&mut top_level, &script.global_bindings);
                        let mut files: Vec<&FusionFile> = Vec::new();
                        let mut k: usize = 0;
                        while k < script.files.len()
                            invariant
                                k <= script.files.len(),
                                files.len() == k,
                                forall|j: int| 0 <= j < k ==> *files[j] == script.files[j],
                            decreases script.files.len() - k,
                        {
                            files.push(&script.files[k]);
                            k += 1;
                        }
                        assert(files@.map_values(|f: &FusionFile| file_model(*f)) =~= file_models(
                            script.files@,
                        ));
                        self.check_files(top_level, &files)
                    },
                    None => {
                        let mut message = NO_MODULE.to_owned();
                        message.append(script_name.as_str());
                        let mut errors: Vec<Error> = Vec::new();
                        errors.push(Error::Generic(message));
                        assert(errors@.map_values(|e: Error| e.message()) =~= seq![
                            NO_MODULE@ + script_name@,
                        ]);
                        errors
                    },
                }
            },
        }
    }
}

} // verus!
