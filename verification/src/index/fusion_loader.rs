//! Reads what a file declares, and makes modules and scripts of files.
//!
//! Nothing here reads a file. Where a walk comes upon a module that is not in the index,
//! it stops and names the module; once that module has been put into the index, the walk
//! is made again.

use crate::check::unbound::find_item;
use crate::config::{same_text, FusionConfig};
use crate::error::Error;
use crate::file::FusionFile;
use crate::index::fusion_index::{parent_among, FILE_EXTENSION, FusionIndex, TOP_LEVEL_MODULE_NAME};
use crate::ist::lowered_items;
use crate::text::{copy_range, push_all, to_chars, to_string};
use crate::index::module::{
    find_place, provide_views, put_place, require_views, with_names, Mapping, Module, ModuleModel,
    Named, Origin, Provide, Renamed, RequireForm, RequireType, Requirement,
};
use crate::index::rules::{
    declared, failed, kernel, loaded, name_text, only_names, pair_names, renamed_names,
    visit_define, visit_expr, visit_from, visit_module, visit_names_of, visit_provide,
    visit_rename_out, visit_require, visit_require_sexpr, visit_sexpr, with_mapping, BAD_REQUIRE,
    EXPECTED_OUT, EXPECTED_SEXPR, EXPECTED_STRING, Found, INVALID_MAPPING, INVALID_REQUIRE,
    MISSING_LANGUAGE, MISSING_MODULE_NAME, NOT_A_SYMBOL, NO_LOCAL_NAME, NO_PREFIX_IN,
    NO_PROVIDED_NAME, NO_RENAME_SEXPR, Step, Stop, UNEXPECTED_SEXPR, UNKNOWN_LOCAL_NAME,
};
use crate::ist::{lemma_node_views, node_views, IExpr, IntermediateSyntaxTree, ListData};
use crate::model::{texts, AtomicType};
use crate::span::ShortSpan;
use vstd::prelude::*;

verus! {

/// Why a walk stops: a module has to be loaded first, or the file is in error.
#[derive(Debug)]
pub enum LoadStop {
    Needs(String),
    Failed { span: ShortSpan, message: String },
}

impl View for LoadStop {
    type V = Stop;

    open spec fn view(&self) -> Stop {
        match self {
            LoadStop::Needs(name) => Stop::Needs(name@),
            LoadStop::Failed { span, message } => Stop::Failed { span: *span, message: message@ },
        }
    }
}

/// A file is in error at `span`.
fn fail(span: ShortSpan, message: &str) -> (stop: LoadStop)
    ensures
        stop@ == (Stop::Failed { span, message: message@ }),
{
    LoadStop::Failed { span, message: message.to_owned() }
}

/// What has been found in a file so far.
pub struct ProcessedFile {
    pub language: Option<String>,
    pub all_defined_out: bool,
    pub defined: Vec<Provide>,
    pub requirements: Vec<RequireForm>,
    pub provides: Vec<Provide>,
}

impl View for ProcessedFile {
    type V = Found;

    open spec fn view(&self) -> Found {
        Found {
            language: match self.language {
                Some(name) => Some(name@),
                None => None,
            },
            all_defined_out: self.all_defined_out,
            defined: provide_views(self.defined@),
            requirements: require_views(self.requirements@),
            provides: provide_views(self.provides@),
        }
    }
}

/// The outcome of a step that changes what has been found.
pub open spec fn outcome(result: Result<(), LoadStop>, after: Found) -> Step {
    match result {
        Ok(_) => Ok(after),
        Err(stop) => Err(stop@),
    }
}

/// The text of a string or of a symbol without its quotes.
fn name_of(expr: &IExpr) -> (text: Option<&str>)
    ensures
        match text {
            Some(t) => name_text(expr@) == Some(t@),
            None => name_text(expr@) is None,
        },
{
    match expr {
        IExpr::Atomic(data) => match data.typ {
            AtomicType::QuotedString => Some(data.value.as_str()),
            _ => expr.stripped_symbol_value(),
        },
        IExpr::MultilineString(data) => Some(data.value.as_str()),
        _ => None,
    }
}

/// The content of a quoted or multi-line string.
fn string_of(expr: &IExpr) -> (text: Option<&str>)
    ensures
        match text {
            Some(t) => expr@.string_text() == Some(t@),
            None => expr@.string_text() is None,
        },
{
    match expr {
        IExpr::Atomic(data) => match data.typ {
            AtomicType::QuotedString => Some(data.value.as_str()),
            _ => None,
        },
        IExpr::MultilineString(data) => Some(data.value.as_str()),
        _ => None,
    }
}

/// The text of a symbol as written.
fn symbol_of(expr: &IExpr) -> (text: Option<&str>)
    ensures
        match text {
            Some(t) => expr@.symbol_text() == Some(t@),
            None => expr@.symbol_text() is None,
        },
{
    if expr.is_symbol() {
        Some(expr.symbol_value().as_str())
    } else {
        None
    }
}

/// Puts the mapping of `name` to `origin` into `mapping`: in place of the entry of that
/// name if there is one, else at the end.
fn put_mapping(mapping: &mut Vec<Mapping>, name: String, origin: Origin)
    ensures
        final(mapping)@.map_values(|m: Mapping| m@) == with_mapping(
            old(mapping)@.map_values(|m: Mapping| m@),
            name@,
            origin@,
        ),
{
    let ghost start = mapping@.map_values(|m: Mapping| m@);
    let mut i: usize = 0;
    assert(start.skip(0) =~= start);
    assert(start.take(0) + with_mapping(start.skip(0), name@, origin@) =~= with_mapping(
        start,
        name@,
        origin@,
    ));
    while i < mapping.len()
        invariant
            i <= mapping.len(),
            mapping@ == old(mapping)@,
            start == mapping@.map_values(|m: Mapping| m@),
            start.take(i as int) + with_mapping(start.skip(i as int), name@, origin@)
                == with_mapping(start, name@, origin@),
        decreases mapping.len() - i,
    {
        assert(start[i as int] == mapping[i as int]@);
        assert(start.skip(i as int)[0] == start[i as int]);
        assert(start.skip(i as int).drop_first() =~= start.skip(i + 1));
        if same_text(mapping[i].name.as_str(), name.as_str()) {
            mapping.remove(i);
            mapping.insert(i, Mapping { name, origin });
            assert(mapping@.map_values(|m: Mapping| m@) =~= start.take(i as int) + (seq![
                Renamed { name: name@, origin: origin@ },
            ] + start.skip(i + 1)));
            return ;
        }
        assert(start.take(i + 1) + with_mapping(start.skip(i + 1), name@, origin@)
            =~= start.take(i as int) + (seq![start[i as int]] + with_mapping(
            start.skip(i + 1),
            name@,
            origin@,
        )));
        i += 1;
    }
    mapping.push(Mapping { name, origin });
    assert(start.skip(mapping.len() - 1) =~= Seq::<Renamed>::empty());
    assert(mapping@.map_values(|m: Mapping| m@) =~= start.take(start.len() as int) + seq![
        Renamed { name: name@, origin: origin@ },
    ]);
}

impl ProcessedFile {
    pub fn new() -> (processed: ProcessedFile)
        ensures
            processed@ == Found::nothing(),
    {
        let processed = ProcessedFile {
            language: None,
            all_defined_out: false,
            defined: Vec::new(),
            requirements: Vec::new(),
            provides: Vec::new(),
        };
        assert(processed@.defined =~= Seq::<Named>::empty());
        assert(processed@.requirements =~= Seq::<Requirement>::empty());
        assert(processed@.provides =~= Seq::<Named>::empty());
        processed
    }

    /// The language, the requirements and what is provided in the end.
    pub fn dissolve(self) -> (parts: (String, Vec<RequireForm>, Vec<Provide>))
        ensures
            parts.0@ == self@.language_name(),
            require_views(parts.1@) == self@.requirements,
            provide_views(parts.2@) == self@.provided(),
    {
        let mut provides = self.provides;
        if self.all_defined_out {
            let defined = self.defined;
            let ghost start = provide_views(provides@);
            let ghost more = provide_views(defined@);
            let mut i: usize = 0;
            while i < defined.len()
                invariant
                    i <= defined.len(),
                    more == provide_views(defined@),
                    provide_views(provides@) == with_names(start, more, i as int),
                decreases defined.len() - i,
            {
                assert(more[i as int] == defined[i as int]@);
                put_place(&mut provides, defined[i].name.clone(), defined[i].span);
                i += 1;
            }
        }
        let language = match self.language {
            Some(name) => name,
            None => String::new(),
        };
        (language, self.requirements, provides)
    }
}

/// Reads what files declare against the modules of an index.
pub struct FusionLoader<'i> {
    config: &'i FusionConfig,
    index: &'i FusionIndex,
}

impl<'i> FusionLoader<'i> {
    /// The modules that the loader knows.
    pub closed spec fn modules(&self) -> Seq<ModuleModel> {
        self.index.module_models()
    }

    pub fn new(config: &'i FusionConfig, fusion_index: &'i FusionIndex) -> (loader: FusionLoader<'i>)
        ensures
            loader.modules() == fusion_index.module_models(),
    {
        FusionLoader { config, index: fusion_index }
    }

    /// Succeeds if the module `module_name` is there: it is the kernel, or it is in the
    /// index. Else the walk stops and names the module.
    pub fn load_module(&self, module_name: &str) -> (result: Result<(), LoadStop>)
        ensures
            match result {
                Ok(_) => loaded(self.modules(), module_name@),
                Err(stop) => !loaded(self.modules(), module_name@) && stop@ == Stop::Needs(
                    module_name@,
                ),
            },
    {
        if same_text(module_name, TOP_LEVEL_MODULE_NAME) {
            return Ok(());
        }
        match self.index.get_module(module_name) {
            Some(_) => Ok(()),
            None => Err(LoadStop::Needs(module_name.to_owned())),
        }
    }

    fn visit_expr(&self, processed: &mut ProcessedFile, expr: &IExpr, quoted: bool) -> (result:
        Result<(), LoadStop>)
        ensures
            outcome(result, final(processed)@) == visit_expr(
                self.modules(),
                old(processed)@,
                expr@,
                quoted,
            ),
        decreases expr, 0int,
    {
        match expr {
            IExpr::SExpr(data) => self.visit_sexpr(processed, data, quoted),
            IExpr::List(data) => self.visit_from(processed, &data.items, 0, quoted),
            IExpr::Struct(data) => self.visit_from(processed, &data.items, 0, quoted),
            _ => Ok(()),
        }
    }

    /// Walks `items[from..]`, one after the other.
    fn visit_from(
        &self,
        processed: &mut ProcessedFile,
        items: &Vec<IExpr>,
        from: usize,
        quoted: bool,
    ) -> (result: Result<(), LoadStop>)
        ensures
            outcome(result, final(processed)@) == visit_from(
                self.modules(),
                old(processed)@,
                node_views(items@),
                from as int,
                quoted,
            ),
        decreases items, items.len(),
    {
        broadcast use lemma_node_views;

        let ghost nodes = node_views(items@);
        let mut i: usize = from;
        while i < items.len()
            invariant
                from <= i,
                nodes == node_views(items@),
                nodes.len() == items.len(),
                forall|j: int| 0 <= j < items.len() ==> nodes[j] == items[j]@,
                visit_from(self.modules(), processed@, nodes, i as int, quoted) == visit_from(
                    self.modules(),
                    old(processed)@,
                    nodes,
                    from as int,
                    quoted,
                ),
            decreases items.len() - i,
        {
            match self.visit_expr(processed, &items[i], quoted) {
                Ok(_) => {},
                Err(stop) => {
                    return Err(stop);
                },
            }
            i += 1;
        }
        Ok(())
    }

    fn visit_sexpr(&self, processed: &mut ProcessedFile, sexpr: &ListData, quoted: bool) -> (result:
        Result<(), LoadStop>)
        ensures
            outcome(result, final(processed)@) == visit_sexpr(
                self.modules(),
                old(processed)@,
                sexpr@,
                quoted,
            ),
        decreases sexpr, 0int,
    {
        broadcast use lemma_node_views;

        let items = &sexpr.items;
        let first = find_item(items, 0);
        if first >= items.len() {
            return Ok(());
        }
        let function_call = match symbol_of(&items[first]) {
            Some(name) => name,
            None => {
                return Ok(());
            },
        };
        let rest = first + 1;
        if quoted {
            self.visit_from(processed, items, rest, !same_text(function_call, "unquote"))
        } else if same_text(function_call, "define") {
            Self::visit_define(processed, items, rest, false);
            Ok(())
        } else if same_text(function_call, "define_syntax") || same_text(function_call, "defpub")
            || same_text(function_call, "defpub_j") || same_text(function_call, "defpub_syntax") {
            Self::visit_define(processed, items, rest, true);
            Ok(())
        } else if same_text(function_call, "module") {
            self.visit_module(processed, items, rest, sexpr.span)
        } else if same_text(function_call, "provide") {
            self.visit_provide(processed, items, rest)
        } else if same_text(function_call, "quasiquote") {
            self.visit_from(processed, items, rest, true)
        } else if same_text(function_call, "quote") {
            Ok(())
        } else if same_text(function_call, "require") {
            self.visit_require(processed, items, rest)
        } else {
            self.visit_from(processed, items, rest, quoted)
        }
    }

    /// Takes the name that a definition defines: into what the file provides if the
    /// definition is public, else into what it defines.
    fn visit_define(processed: &mut ProcessedFile, items: &Vec<IExpr>, from: usize, public: bool)
        ensures
            final(processed)@ == visit_define(
                old(processed)@,
                node_views(items@),
                from as int,
                public,
            ),
    {
        broadcast use lemma_node_views;

        let target = find_item(items, from);
        if target >= items.len() {
            return ;
        }
        let arg_list = &items[target];
        let named: Option<(&str, ShortSpan)> = match symbol_of(arg_list) {
            Some(name) => Some((name, arg_list.span())),
            None => match arg_list {
                IExpr::SExpr(data) => {
                    let first = find_item(&data.items, 0);
                    if first < data.items.len() {
                        match symbol_of(&data.items[first]) {
                            Some(name) => Some((name, data.items[first].span())),
                            None => None,
                        }
                    } else {
                        None
                    }
                },
                _ => None,
            },
        };
        match named {
            Some((name, span)) => {
                if public {
                    put_place(&mut processed.provides, name.to_owned(), span);
                } else {
                    put_place(&mut processed.defined, name.to_owned(), span);
                }
            },
            None => {},
        }
    }

    fn visit_module(
        &self,
        processed: &mut ProcessedFile,
        items: &Vec<IExpr>,
        from: usize,
        span: ShortSpan,
    ) -> (result: Result<(), LoadStop>)
        requires
            from <= items.len(),
        ensures
            outcome(result, final(processed)@) == visit_module(
                self.modules(),
                old(processed)@,
                node_views(items@),
                from as int,
                span,
            ),
        decreases items, items.len() + 1,
    {
        broadcast use lemma_node_views;

        let name = find_item(items, from);
        if name >= items.len() {
            return Err(fail(span, MISSING_MODULE_NAME));
        }
        let at = find_item(items, name + 1);
        if at >= items.len() {
            return Err(fail(span, MISSING_LANGUAGE));
        }
        let language = match name_of(&items[at]) {
            Some(text) => text,
            None => {
                return Err(fail(span, MISSING_LANGUAGE));
            },
        };
        match self.load_module(language) {
            Ok(_) => {},
            Err(stop) => {
                return Err(stop);
            },
        }
        processed.language = Some(language.to_owned());
        self.visit_from(processed, items, at + 1, false)
    }

    fn visit_require(&self, processed: &mut ProcessedFile, items: &Vec<IExpr>, from: usize) -> (result:
        Result<(), LoadStop>)
        requires
            from <= items.len(),
        ensures
            outcome(result, final(processed)@) == visit_require(
                self.modules(),
                old(processed)@,
                node_views(items@),
                from as int,
            ),
    {
        broadcast use lemma_node_views;

        let ghost nodes = node_views(items@);
        let mut i: usize = from;
        while i < items.len()
            invariant
                from <= i <= items.len(),
                nodes == node_views(items@),
                nodes.len() == items.len(),
                forall|j: int| 0 <= j < items.len() ==> nodes[j] == items[j]@,
                visit_require(self.modules(), processed@, nodes, i as int) == visit_require(
                    self.modules(),
                    old(processed)@,
                    nodes,
                    from as int,
                ),
            decreases items.len() - i,
        {
            let expr = &items[i];
            if expr.is_not_comment_or_newlines() {
                let ghost before = processed@;
                let here = match expr {
                    IExpr::Atomic(data) => match data.typ {
                        AtomicType::QuotedString => {
                            match self.load_module(data.value.as_str()) {
                                Ok(_) => {
                                    let form = RequireForm::new(
                                        data.value.clone(),
                                        RequireType::All,
                                    );
                                    processed.requirements.push(form);
                                    assert(processed@.requirements =~= before.requirements.push(
                                        form@,
                                    ));
                                    Ok(())
                                },
                                Err(stop) => Err(stop),
                            }
                        },
                        _ => Err(fail(data.span, BAD_REQUIRE)),
                    },
                    IExpr::SExpr(data) => self.visit_require_sexpr(processed, data),
                    other => Err(fail(other.span(), BAD_REQUIRE)),
                };
                match here {
                    Ok(_) => {},
                    Err(stop) => {
                        return Err(stop);
                    },
                }
            }
            i += 1;
        }
        Ok(())
    }

    fn visit_require_sexpr(&self, processed: &mut ProcessedFile, sexpr: &ListData) -> (result: Result<
        (),
        LoadStop,
    >)
        ensures
            outcome(result, final(processed)@) == visit_require_sexpr(
                self.modules(),
                old(processed)@,
                sexpr@,
            ),
    {
        broadcast use lemma_node_views;

        let items = &sexpr.items;
        let first = find_item(items, 0);
        if first >= items.len() {
            return Ok(());
        }
        let first_value = &items[first];
        let function_call = match symbol_of(first_value) {
            Some(name) => name,
            None => {
                return Ok(());
            },
        };
        if same_text(function_call, "only_in") {
            self.visit_require_names(processed, items, first + 1, sexpr.span, false)
        } else if same_text(function_call, "prefix_in") {
            Err(fail(first_value.span(), NO_PREFIX_IN))
        } else if same_text(function_call, "rename_in") {
            self.visit_require_names(processed, items, first + 1, sexpr.span, true)
        } else {
            Err(fail(first_value.span(), INVALID_REQUIRE))
        }
    }

    /// Takes the names of an `only_in` or, if `renamed`, of a `rename_in`.
    fn visit_require_names(
        &self,
        processed: &mut ProcessedFile,
        items: &Vec<IExpr>,
        from: usize,
        span: ShortSpan,
        renamed: bool,
    ) -> (result: Result<(), LoadStop>)
        requires
            from <= items.len(),
        ensures
            outcome(result, final(processed)@) == visit_names_of(
                self.modules(),
                old(processed)@,
                node_views(items@),
                from as int,
                span,
                renamed,
            ),
    {
        broadcast use lemma_node_views;

        let at = find_item(items, from);
        if at >= items.len() {
            return Err(fail(span, MISSING_MODULE_NAME));
        }
        let module_name = match string_of(&items[at]) {
            Some(text) => text,
            None => {
                return Err(fail(span, MISSING_MODULE_NAME));
            },
        };
        match self.load_module(module_name) {
            Ok(_) => {},
            Err(stop) => {
                return Err(stop);
            },
        }
        let ghost before = processed@;
        let required = if renamed {
            match visit_require_rename_in(items, at + 1) {
                Ok(mapping) => RequireType::Mapped(mapping),
                Err(stop) => {
                    return Err(stop);
                },
            }
        } else {
            match visit_require_only_in(items, at + 1) {
                Ok(names) => RequireType::Names(names),
                Err(stop) => {
                    return Err(stop);
                },
            }
        };
        let form = RequireForm::new(module_name.to_owned(), required);
        processed.requirements.push(form);
        assert(processed@.requirements =~= before.requirements.push(form@));
        Ok(())
    }

    fn visit_provide(&self, processed: &mut ProcessedFile, items: &Vec<IExpr>, from: usize) -> (result:
        Result<(), LoadStop>)
        requires
            from <= items.len(),
        ensures
            outcome(result, final(processed)@) == visit_provide(
                self.modules(),
                old(processed)@,
                node_views(items@),
                from as int,
            ),
    {
        broadcast use lemma_node_views;

        let ghost nodes = node_views(items@);
        let mut i: usize = from;
        while i < items.len()
            invariant
                from <= i <= items.len(),
                nodes == node_views(items@),
                nodes.len() == items.len(),
                forall|j: int| 0 <= j < items.len() ==> nodes[j] == items[j]@,
                visit_provide(self.modules(), processed@, nodes, i as int) == visit_provide(
                    self.modules(),
                    old(processed)@,
                    nodes,
                    from as int,
                ),
            decreases items.len() - i,
        {
            let provided = &items[i];
            if provided.is_not_comment_or_newlines() {
                let here = match provided.stripped_symbol_value() {
                    Some(name) => {
                        put_place(&mut processed.provides, name.to_owned(), provided.span());
                        Ok(())
                    },
                    None => match provided {
                        IExpr::SExpr(sexpr) => {
                            let first = find_item(&sexpr.items, 0);
                            if first >= sexpr.items.len() {
                                Err(fail(sexpr.span, UNEXPECTED_SEXPR))
                            } else {
                                let first_value = &sexpr.items[first];
                                match symbol_of(first_value) {
                                    Some(function_call) => {
                                        if same_text(function_call, "all_defined_out") {
                                            processed.all_defined_out = true;
                                            Ok(())
                                        } else if same_text(function_call, "rename_out") {
                                            self.visit_rename_out(
                                                processed,
                                                &sexpr.items,
                                                first + 1,
                                                first_value.span(),
                                            )
                                        } else {
                                            Err(fail(sexpr.span, EXPECTED_OUT))
                                        }
                                    },
                                    None => Err(fail(sexpr.span, EXPECTED_OUT)),
                                }
                            }
                        },
                        _ => Ok(()),
                    },
                };
                match here {
                    Ok(_) => {},
                    Err(stop) => {
                        return Err(stop);
                    },
                }
            }
            i += 1;
        }
        Ok(())
    }

    /// The place that the name `name` of a required module comes from.
    fn find_required(&self, processed: &ProcessedFile, name: &str) -> (place: Option<ShortSpan>)
        ensures
            place == processed@.required_place(self.modules(), name@, 0),
    {
        let ghost found = processed@;
        let mut i: usize = 0;
        while i < processed.requirements.len()
            invariant
                i <= processed.requirements.len(),
                found == processed@,
                found.required_place(self.modules(), name@, i as int) == found.required_place(
                    self.modules(),
                    name@,
                    0,
                ),
            decreases processed.requirements.len() - i,
        {
            assert(found.requirements[i as int] == processed.requirements[i as int]@);
            match processed.requirements[i].find_origin(self.index, name) {
                Some(place) => {
                    return Some(place);
                },
                None => {},
            }
            i += 1;
        }
        None
    }

    fn visit_rename_out(
        &self,
        processed: &mut ProcessedFile,
        items: &Vec<IExpr>,
        from: usize,
        rename_out_span: ShortSpan,
    ) -> (result: Result<(), LoadStop>)
        requires
            from <= items.len(),
        ensures
            outcome(result, final(processed)@) == visit_rename_out(
                self.modules(),
                old(processed)@,
                node_views(items@),
                from as int,
                rename_out_span,
            ),
    {
        broadcast use lemma_node_views;

        let at = find_item(items, from);
        if at >= items.len() {
            return Err(fail(rename_out_span, NO_RENAME_SEXPR));
        }
        match &items[at] {
            IExpr::SExpr(sexpr) => {
                let names = &sexpr.items;
                let local = find_item(names, 0);
                let local_name = if local < names.len() {
                    symbol_of(&names[local])
                } else {
                    None
                };
                let provided = if local < names.len() {
                    find_item(names, local + 1)
                } else {
                    names.len()
                };
                let provided_name = if provided < names.len() {
                    symbol_of(&names[provided])
                } else {
                    None
                };
                let local_name = match local_name {
                    Some(name) => name,
                    None => {
                        return Err(fail(rename_out_span, NO_LOCAL_NAME));
                    },
                };
                let provided_name = match provided_name {
                    Some(name) => name,
                    None => {
                        return Err(fail(rename_out_span, NO_PROVIDED_NAME));
                    },
                };
                let place = match find_place(&processed.defined, local_name) {
                    Some(place) => Some(place),
                    None => self.find_required(processed, local_name),
                };
                match place {
                    Some(place) => {
                        put_place(&mut processed.provides, provided_name.to_owned(), place);
                        Ok(())
                    },
                    None => Err(fail(rename_out_span, UNKNOWN_LOCAL_NAME)),
                }
            },
            _ => Err(fail(rename_out_span, NO_RENAME_SEXPR)),
        }
    }

    /// What the file with the tree `tree` declares, or why this cannot be said yet.
    pub fn process_tree(&self, tree: &IntermediateSyntaxTree) -> (result: Result<
        ProcessedFile,
        LoadStop,
    >)
        ensures
            match result {
                Ok(processed) => declared(self.modules(), tree@) == Ok::<Found, Stop>(processed@),
                Err(stop) => declared(self.modules(), tree@) == Err::<Found, Stop>(stop@),
            },
    {
        let mut processed = ProcessedFile::new();
        match self.visit_from(&mut processed, &tree.expressions, 0, false) {
            Ok(_) => Ok(processed),
            Err(stop) => Err(stop),
        }
    }
}

/// The names of an `only_in`: the symbols among `items[from..]`, each with its place.
fn visit_require_only_in(items: &Vec<IExpr>, from: usize) -> (result: Result<
    Vec<Origin>,
    LoadStop,
>)
    requires
        from <= items.len(),
    ensures
        match result {
            Ok(names) => only_names(node_views(items@), from as int, Seq::empty()) == Ok::<
                Seq<Named>,
                Stop,
            >(names@.map_values(|o: Origin| o@)),
            Err(stop) => only_names(node_views(items@), from as int, Seq::empty()) == Err::<
                Seq<Named>,
                Stop,
            >(stop@),
        },
{
    broadcast use lemma_node_views;

    let ghost nodes = node_views(items@);
    let mut names: Vec<Origin> = Vec::new();
    let mut i: usize = from;
    assert(names@.map_values(|o: Origin| o@) =~= Seq::<Named>::empty());
    while i < items.len()
        invariant
            from <= i <= items.len(),
            nodes == node_views(items@),
            nodes.len() == items.len(),
            forall|j: int| 0 <= j < items.len() ==> nodes[j] == items[j]@,
            only_names(nodes, i as int, names@.map_values(|o: Origin| o@)) == only_names(
                nodes,
                from as int,
                Seq::empty(),
            ),
        decreases items.len() - i,
    {
        let expr = &items[i];
        if expr.is_not_comment_or_newlines() {
            match expr.stripped_symbol_value() {
                Some(name) => {
                    let ghost before = names@.map_values(|o: Origin| o@);
                    let origin = Origin::new(name.to_owned(), expr.span());
                    names.push(origin);
                    assert(names@.map_values(|o: Origin| o@) =~= before.push(origin@));
                },
                None => {
                    return Err(fail(expr.span(), NOT_A_SYMBOL));
                },
            }
        }
        i += 1;
    }
    Ok(names)
}

/// The symbols among `items`.
fn visit_pair(items: &Vec<IExpr>) -> (result: Result<Vec<String>, LoadStop>)
    ensures
        match result {
            Ok(names) => pair_names(node_views(items@), 0, Seq::empty()) == Ok::<
                Seq<Seq<char>>,
                Stop,
            >(texts(names@)),
            Err(stop) => pair_names(node_views(items@), 0, Seq::empty()) == Err::<
                Seq<Seq<char>>,
                Stop,
            >(stop@),
        },
{
    broadcast use lemma_node_views;

    let ghost nodes = node_views(items@);
    let mut names: Vec<String> = Vec::new();
    let mut i: usize = 0;
    assert(texts(names@) =~= Seq::<Seq<char>>::empty());
    while i < items.len()
        invariant
            i <= items.len(),
            nodes == node_views(items@),
            nodes.len() == items.len(),
            forall|j: int| 0 <= j < items.len() ==> nodes[j] == items[j]@,
            pair_names(nodes, i as int, texts(names@)) == pair_names(nodes, 0, Seq::empty()),
        decreases items.len() - i,
    {
        let expr = &items[i];
        if expr.is_not_comment_or_newlines() {
            match expr.stripped_symbol_value() {
                Some(name) => {
                    let ghost before = texts(names@);
                    names.push(name.to_owned());
                    assert(texts(names@) =~= before.push(name@));
                },
                None => {
                    return Err(fail(expr.span(), EXPECTED_STRING));
                },
            }
        }
        i += 1;
    }
    Ok(names)
}

/// The names of a `rename_in`: one entry for each pair among `items[from..]`.
fn visit_require_rename_in(items: &Vec<IExpr>, from: usize) -> (result: Result<
    Vec<Mapping>,
    LoadStop,
>)
    requires
        from <= items.len(),
    ensures
        match result {
            Ok(mapping) => renamed_names(node_views(items@), from as int, Seq::empty()) == Ok::<
                Seq<Renamed>,
                Stop,
            >(mapping@.map_values(|m: Mapping| m@)),
            Err(stop) => renamed_names(node_views(items@), from as int, Seq::empty()) == Err::<
                Seq<Renamed>,
                Stop,
            >(stop@),
        },
{
    broadcast use lemma_node_views;

    let ghost nodes = node_views(items@);
    let mut mapping: Vec<Mapping> = Vec::new();
    let mut i: usize = from;
    assert(mapping@.map_values(|m: Mapping| m@) =~= Seq::<Renamed>::empty());
    while i < items.len()
        invariant
            from <= i <= items.len(),
            nodes == node_views(items@),
            nodes.len() == items.len(),
            forall|j: int| 0 <= j < items.len() ==> nodes[j] == items[j]@,
            renamed_names(nodes, i as int, mapping@.map_values(|m: Mapping| m@)) == renamed_names(
                nodes,
                from as int,
                Seq::empty(),
            ),
        decreases items.len() - i,
    {
        let expr = &items[i];
        if expr.is_not_comment_or_newlines() {
            match expr {
                IExpr::SExpr(sexpr) => {
                    let mut pair = match visit_pair(&sexpr.items) {
                        Ok(pair) => pair,
                        Err(stop) => {
                            return Err(stop);
                        },
                    };
                    if pair.len() == 2 {
                        let ghost names = texts(pair@);
                        assert(names[0] == pair[0]@ && names[1] == pair[1]@);
                        let to = pair.remove(1);
                        let name = pair.remove(0);
                        put_mapping(&mut mapping, name, Origin::new(to, sexpr.span));
                    } else {
                        return Err(fail(sexpr.span, INVALID_MAPPING));
                    }
                },
                other => {
                    return Err(fail(other.span(), EXPECTED_SEXPR));
                },
            }
        }
        i += 1;
    }
    Ok(mapping)
}

/// What the error for a module without a file starts with.
pub const CANNOT_LOAD: &'static str = "cannot load module named ";

/// What the error for a module without a file ends with.
pub const NO_MODULE_FILE: &'static str = ": no module file found in module paths";

/// What the error for a file outside the module paths starts with.
pub const NO_PARENT_PATH: &'static str = "failed to find parent path of ";

/// What the error for a file whose name does not end as the name of a source file does
/// starts with.
pub const NOT_A_SOURCE_FILE: &'static str = "not the name of a source file: ";

/// `pattern` stands at position `at` of `text`.
pub open spec fn occurs_at(text: Seq<char>, pattern: Seq<char>, at: int) -> bool {
    0 <= at && at + pattern.len() <= text.len() && text.subrange(at, at + pattern.len())
        == pattern
}

/// The first position at or after `from` at which `pattern` stands in `text`.
pub open spec fn first_occurrence(text: Seq<char>, pattern: Seq<char>, from: int) -> Option<int>
    decreases text.len() - from,
{
    if from < 0 || from + pattern.len() > text.len() {
        None
    } else if occurs_at(text, pattern, from) {
        Some(from)
    } else if from >= text.len() {
        None
    } else {
        first_occurrence(text, pattern, from + 1)
    }
}

/// The path of `file` below the directory `dir`, which holds it: what follows the path of
/// the directory and the separator.
pub open spec fn path_below(dir: Seq<char>, file: Seq<char>) -> Seq<char> {
    if dir.len() < file.len() && file[dir.len() as int] == '/' {
        file.skip(dir.len() as int + 1)
    } else {
        file.skip(dir.len() as int)
    }
}

/// The name of the module in the file `file`: the path of the file below the first
/// module path that holds it, up to `.fusion`, after a `/`.
pub open spec fn module_name_of(paths: Seq<Seq<char>>, file: Seq<char>) -> Option<Seq<char>> {
    match parent_among(paths, file, 0) {
        Some(i) => {
            let relative = path_below(paths[i], file);
            match first_occurrence(relative, FILE_EXTENSION@, 0) {
                Some(end) => Some(seq!['/'] + relative.take(end)),
                None => None,
            }
        },
        None => None,
    }
}

/// The first position at which `pattern` stands in `text`.
pub fn find_text(text: &Vec<char>, pattern: &Vec<char>) -> (at: Option<usize>)
    ensures
        match at {
            Some(i) => first_occurrence(text@, pattern@, 0) == Some(i as int) && i + pattern.len()
                <= text.len(),
            None => first_occurrence(text@, pattern@, 0) is None,
        },
{
    if pattern.len() > text.len() {
        return None;
    }
    let last = text.len() - pattern.len();
    let mut i: usize = 0;
    while i <= last
        invariant
            i <= last + 1,
            last == text.len() - pattern.len(),
            first_occurrence(text@, pattern@, i as int) == first_occurrence(text@, pattern@, 0),
        decreases last + 1 - i,
    {
        let mut k: usize = 0;
        while k < pattern.len() && text[i + k] == pattern[k]
            invariant
                k <= pattern.len(),
                i + pattern.len() <= text.len(),
                forall|j: int| 0 <= j < k ==> text@[i + j] == pattern@[j],
            decreases pattern.len() - k,
        {
            k += 1;
        }
        if k == pattern.len() {
            assert(text@.subrange(i as int, i + pattern.len()) =~= pattern@);
            return Some(i);
        }
        assert(text@.subrange(i as int, i + pattern.len())[k as int] != pattern@[k as int]);
        i += 1;
    }
    None
}

impl LoadStop {
    /// The message of the error for this stop in the file `file_name` with the text
    /// `file_contents`: for a module that is needed, that the module cannot be loaded; for
    /// a file in error, the report on the place of the error.
    pub open spec fn message(self, file_name: Seq<char>, file_contents: Seq<char>) -> Seq<char> {
        match self {
            LoadStop::Needs(name) => CANNOT_LOAD@ + name@ + NO_MODULE_FILE@,
            LoadStop::Failed { span, message } => (Error::Spanned(span, message)).resolved_message(
                file_name,
                file_contents,
            ),
        }
    }

    /// The error for this stop.
    pub fn into_error(self, file_name: &str, file_contents: &str) -> (error: Error)
        ensures
            error.span() is None,
            error.message() == self.message(file_name@, file_contents@),
    {
        match self {
            LoadStop::Needs(name) => {
                let mut message = CANNOT_LOAD.to_owned();
                message.append(name.as_str());
                message.append(NO_MODULE_FILE);
                Error::Generic(message)
            },
            LoadStop::Failed { span, message } => Error::Spanned(span, message).resolve_spanned(
                file_name,
                file_contents,
            ),
        }
    }
}

impl<'i> FusionLoader<'i> {
    /// The paths under which the loader looks for modules.
    pub closed spec fn paths(&self) -> Seq<Seq<char>> {
        self.index.paths()
    }

    /// The name of the module in the file `file_path`. Fails if no module path holds the
    /// file, or if its name does not hold `.fusion`.
    pub fn determine_module_name(&self, file_path: &str) -> (result: Result<String, Error>)
        ensures
            match result {
                Ok(name) => module_name_of(self.paths(), file_path@) == Some(name@),
                Err(error) => module_name_of(self.paths(), file_path@) is None && error.span()
                    is None && error.message() == (if parent_among(self.paths(), file_path@, 0)
                    is None {
                    NO_PARENT_PATH@
                } else {
                    NOT_A_SOURCE_FILE@
                }) + file_path@,
            },
    {
        let parent_path = match self.index.find_parent_path(file_path) {
            Some(path) => path,
            None => {
                let mut message = NO_PARENT_PATH.to_owned();
                message.append(file_path);
                return Err(Error::Generic(message));
            },
        };
        let dir = to_chars(parent_path);
        let file = to_chars(file_path);
        proof {
            crate::index::fusion_index::lemma_parent_holds(self.paths(), file_path@, 0);
        }
        let start = if dir.len() < file.len() && file[dir.len()] == '/' {
            dir.len() + 1
        } else {
            dir.len()
        };
        let relative = copy_range(&file, start, file.len());
        assert(relative@ =~= path_below(dir@, file@));
        match find_text(&relative, &to_chars(FILE_EXTENSION)) {
            Some(end) => {
                let mut name: Vec<char> = Vec::new();
                name.push('/');
                push_all(&mut name, &copy_range(&relative, 0, end));
                assert(name@ =~= seq!['/'] + relative@.take(end as int));
                Ok(to_string(&name))
            },
            None => {
                let mut message = NOT_A_SOURCE_FILE.to_owned();
                message.append(file_path);
                Err(Error::Generic(message))
            },
        }
    }

    /// The module `module_name` that the file `file` holds. Stops if the file does not
    /// lower, if it is in error, or if it needs a module that is not in the index.
    pub fn process_file(&self, module_name: String, file: FusionFile) -> (result: Result<
        Module,
        LoadStop,
    >)
        ensures
            match result {
                Ok(module) => lowered_items(crate::ast::node_views(file.ast@)) matches Ok(tree)
                    && declared(self.modules(), tree) matches Ok(found) && module@
                    == (ModuleModel {
                    name: module_name@,
                    language: found.language_name(),
                    file_name: file.file_name@,
                    contents: file.contents@,
                    tree: crate::ast::node_views(file.ast@),
                    requirements: found.requirements,
                    provides: found.provided(),
                }),
                Err(stop) => match lowered_items(crate::ast::node_views(file.ast@)) {
                    Ok(tree) => declared(self.modules(), tree) == Err::<Found, Stop>(stop@),
                    Err(e) => stop@ == (Stop::Failed { span: e.span, message: e.message() }),
                },
            },
    {
        let tree = match IntermediateSyntaxTree::from_ast(&file.ast) {
            Ok(tree) => tree,
            Err(error) => {
                return Err(
                    LoadStop::Failed {
                        span: match error {
                            Error::Spanned(span, _) => span,
                            Error::Generic(_) => ShortSpan::new(0, 0),
                        },
                        message: error.to_string(),
                    },
                );
            },
        };
        let processed = match self.process_tree(&tree) {
            Ok(processed) => processed,
            Err(stop) => {
                return Err(stop);
            },
        };
        let ghost found = processed@;
        let (language, requirements, provides) = processed.dissolve();
        Ok(Module::new(module_name, language, file, requirements, provides))
    }
}

} // verus!
