//! The formatter: writes an intermediate syntax tree as canonical text.
use crate::ast::{
    count_clobs_before_newline, part_views, AtomicData, ClobData, ClobExpr, MultilineStringData,
    NewlinesData, NonAnnotatedStringData, NonAnnotatedStringListData,
};
use crate::config::{contains_text, FusionConfig, Options};
use crate::format::layout::{
    concat, continuation_indent, emit_all, emit_atomic, emit_block_lines, emit_clob,
    emit_clob_parts, emit_clob_string, emit_comment_block, emit_list, emit_list_items,
    emit_multiline_string, emit_node, emit_sexpr, emit_sexpr_items, emit_struct, emit_struct_items,
    emit_struct_key, has_value_from, is_arg_symbol, multiline_content, newline_text, next_member,
    space_follows, struct_break_indent, without_trailing_blanks,
};
use crate::ist::{
    count_exprs_before_newline, count_newlines_in, lemma_node_views, node_views, IExpr, ListData,
};
use crate::model::{newline_count, texts, AtomicType};
use crate::text::{
    all_whitespace, byte_length, char_is_blank, copy_range, cursor_column, cursor_pos,
    ends_with_any, ends_with_char, ends_with_gap, indent_continuation_lines, join_trimmed, lines,
    push_all, push_repeated, push_str, repeated, strip_common_indent, to_chars, to_string,
    trim_line_ends, trimmed,
};
use vstd::prelude::*;

verus! {

/// Writes nodes into a growing text.
pub struct Formatter<'i> {
    config: &'i FusionConfig,
    output: Vec<char>,
}

/// `count` newlines, then `indent` spaces.
fn newline(newline_count: usize, indent: u128) -> (text: Vec<char>)
    ensures
        text@ == newline_text(newline_count as nat, indent as nat),
{
    let mut output: Vec<char> = Vec::new();
    push_repeated(&mut output, '\n', newline_count as u128);
    push_repeated(&mut output, ' ', indent);
    assert(output@ =~= newline_text(newline_count as nat, indent as nat));
    output
}

/// Whether `expr` is the symbol `|`.
fn is_arg_list_symbol(expr: &IExpr) -> (b: bool)
    ensures
        b == is_arg_symbol(expr@),
{
    if expr.is_symbol() {
        let value = expr.symbol_value().as_str();
        let found = value.unicode_len() == 1 && value.get_char(0) == '|';
        assert(found == (value@ =~= seq!['|']));
        found
    } else {
        false
    }
}

/// Whether a value stands at position `from` of `items` or after it.
fn any_value_from(items: &Vec<IExpr>, from: usize) -> (b: bool)
    ensures
        b == has_value_from(node_views(items@), from as int),
{
    broadcast use lemma_node_views;

    let mut i: usize = from;
    let ghost nodes = node_views(items@);
    while i < items.len()
        invariant
            from <= i,
            nodes == node_views(items@),
            nodes.len() == items.len(),
            forall|j: int| 0 <= j < items.len() ==> nodes[j] == items[j]@,
            forall|j: int| from <= j < i && j < items.len() ==> !(#[trigger] nodes[j]).is_value(),
        decreases items.len() - i,
    {
        if items[i].is_value() {
            assert(nodes[i as int].is_value());
            return true;
        }
        i += 1;
    }
    false
}

/// The indent after a newline run in a struct whose brace stands in column `column`,
/// taken from the first value or key at position `from` or after it.
fn indent_after_break(items: &Vec<IExpr>, from: usize, column: u128) -> (indent: u128)
    requires
        column <= 4 * usize::MAX,
    ensures
        indent == struct_break_indent(next_member(node_views(items@), from as int), column as nat),
        indent <= column + 4,
{
    broadcast use lemma_node_views;

    let empty_continuation = column;
    let key_continuation = empty_continuation + 1;
    let nested_struct_continuation = key_continuation + 3;
    let value_continuation = key_continuation + 3;
    let mut i: usize = from;
    let ghost nodes = node_views(items@);
    while i < items.len()
        invariant
            from <= i,
            nodes == node_views(items@),
            nodes.len() == items.len(),
            forall|j: int| 0 <= j < items.len() ==> nodes[j] == items[j]@,
            next_member(nodes, i as int) == next_member(nodes, from as int),
            key_continuation == column + 1,
            nested_struct_continuation == column + 4,
            value_continuation == column + 4,
        decreases items.len() - i,
    {
        let next = &items[i];
        assert(nodes[i as int] == next@);
        if next.is_value() || next.is_struct_key() {
            assert(next_member(nodes, i as int) == Some(next@));
            return if next.is_struct_key() {
                key_continuation
            } else if next.is_struct() {
                nested_struct_continuation
            } else {
                value_continuation
            };
        }
        i += 1;
    }
    empty_continuation
}

/// The column in which the lines of an s-expression continue, where its opening
/// parenthesis stands in column `next_indent`.
fn calculate_continuation_indent(config: &FusionConfig, exprs: &Vec<IExpr>, next_indent: u128) -> (indent:
    u128)
    requires
        next_indent <= 4 * usize::MAX,
    ensures
        indent == continuation_indent(config@, node_views(exprs@), next_indent as nat),
        indent <= 5 * usize::MAX + 2,
{
    broadcast use lemma_node_views;

    let column = next_indent;
    if exprs.len() == 0 {
        return column + 1;
    }
    let first = &exprs[0];
    assert(first@ == node_views(exprs@)[0]);
    if first.is_symbol() {
        let symbol_value = first.symbol_value();
        if contains_text(&config.fixed_indent_symbols, symbol_value.as_str()) {
            // Symbol configured to always use fixed indent
            column + 2
        } else if count_exprs_before_newline(exprs) == 1 {
            column + 2
        } else if contains_text(&config.smart_indent_symbols, symbol_value.as_str())
            && count_newlines_in(exprs) > 3 {
            // Symbol configured to use fixed indent if it's long
            column + 2
        } else {
            column + byte_length(symbol_value.as_str()) as u128 + 2
        }
    } else if !first.is_sexpr() {
        // If the first is not an s-expression, use end of opening indent
        column + 1
    } else {
        column + 2
    }
}

/// For each child of an s-expression, whether a space follows it.
fn bind_whitespace(exprs: &Vec<IExpr>) -> (bound: Vec<bool>)
    ensures
        bound.len() == exprs.len(),
        forall|i: int| 0 <= i < exprs.len() ==> bound[i] == space_follows(node_views(exprs@), i),
{
    broadcast use lemma_node_views;

    let mut bound: Vec<bool> = Vec::new();
    let mut first_is_arg_list = false;
    let mut i: usize = 0;
    let ghost nodes = node_views(exprs@);
    while i < exprs.len()
        invariant
            i <= exprs.len(),
            bound.len() == i,
            nodes == node_views(exprs@),
            nodes.len() == exprs.len(),
            forall|j: int| 0 <= j < exprs.len() ==> nodes[j] == exprs[j]@,
            i == 0 ==> !first_is_arg_list,
            i > 0 ==> first_is_arg_list == is_arg_symbol(nodes[0]),
            forall|j: int| 0 <= j < i ==> bound[j] == space_follows(nodes, j),
        decreases exprs.len() - i,
    {
        let expr = &exprs[i];
        let is_first = i == 0;
        let is_last = i != exprs.len() - 1;
        assert(expr@ == nodes[i as int]);
        if is_first && is_arg_list_symbol(expr) {
            bound.push(false);
            first_is_arg_list = true;
        } else if !is_first && first_is_arg_list && is_arg_list_symbol(expr) {
            bound.push(true);
        } else {
            let next_ends_arg_list = if i + 1 < exprs.len() {
                first_is_arg_list && is_arg_list_symbol(&exprs[i + 1])
            } else {
                false
            };
            bound.push(!next_ends_arg_list && is_last && !expr.is_newlines());
        }
        i += 1;
    }
    bound
}

impl<'i> Formatter<'i> {
    /// The text written so far.
    pub closed spec fn text(&self) -> Seq<char> {
        self.output@
    }

    /// The options that the formatter works with.
    pub closed spec fn options(&self) -> Options {
        self.config@
    }

    pub fn new(config: &'i FusionConfig) -> (formatter: Formatter<'i>)
        ensures
            formatter.text() == Seq::<char>::empty(),
            formatter.options() == config@,
    {
        Formatter { config, output: Vec::new() }
    }

    /// Writes `exprs` after what was written before.
    pub fn format(&mut self, exprs: &Vec<IExpr>)
        ensures
            final(self).options() == old(self).options(),
            final(self).text() == emit_all(
                old(self).options(),
                old(self).text(),
                node_views(exprs@),
                exprs.len() as int,
                0,
            ),
    {
        self.visit_exprs(exprs, 0);
    }

    /// The text written, with every line stripped of trailing whitespace and ended by a
    /// newline.
    pub fn finish(self) -> (text: String)
        ensures
            text@ == join_trimmed(lines(self.text())),
    {
        to_string(&trim_line_ends(&self.output))
    }

    fn visit_exprs(&mut self, exprs: &Vec<IExpr>, next_indent: u128)
        requires
            next_indent < u128::MAX,
        ensures
            final(self).options() == old(self).options(),
            final(self).text() == emit_all(
                old(self).options(),
                old(self).text(),
                node_views(exprs@),
                exprs.len() as int,
                next_indent as nat,
            ),
        decreases exprs, exprs.len(),
    {
        broadcast use lemma_node_views;

        let mut i: usize = 0;
        let ghost nodes = node_views(exprs@);
        while i < exprs.len()
            invariant
                i <= exprs.len(),
                next_indent < u128::MAX,
                nodes == node_views(exprs@),
                nodes.len() == exprs.len(),
                forall|j: int| 0 <= j < exprs.len() ==> nodes[j] == exprs[j]@,
                self.options() == old(self).options(),
                self.text() == emit_all(
                    old(self).options(),
                    old(self).text(),
                    node_views(exprs@),
                    i as int,
                    next_indent as nat,
                ),
            decreases exprs.len() - i,
        {
            self.visit_expr(&exprs[i], next_indent);
            i += 1;
        }
    }

    fn visit_expr(&mut self, expr: &IExpr, next_indent: u128)
        requires
            next_indent < u128::MAX,
        ensures
            final(self).options() == old(self).options(),
            final(self).text() == emit_node(
                old(self).options(),
                old(self).text(),
                expr@,
                next_indent as nat,
            ),
        decreases expr, 0int,
    {
        match expr {
            IExpr::Atomic(data) => self.visit_atomic(data),
            IExpr::Clob(data) => self.visit_clob(data, next_indent),
            IExpr::CommentBlock(data) => self.visit_comment_block(data, next_indent),
            IExpr::CommentLine(data) => self.visit_comment_line(data, next_indent),
            IExpr::List(data) => self.visit_list(data),
            IExpr::MultilineString(data) => self.visit_multiline_string(data),
            IExpr::Newlines(data) => self.visit_newlines(data, next_indent),
            IExpr::SExpr(data) => self.visit_sexpr(data),
            IExpr::Struct(data) => self.visit_struct(data),
            IExpr::StructKey(data) => self.visit_struct_key(data),
        }
    }

    fn visit_annotations(&mut self, annotations: &Vec<String>)
        ensures
            final(self).options() == old(self).options(),
            final(self).text() == old(self).text() + concat(texts(annotations@)),
    {
        let ghost all = texts(annotations@);
        let mut i: usize = 0;
        assert(all.take(0) =~= Seq::<Seq<char>>::empty());
        assert(self.text() =~= old(self).text() + concat(all.take(0)));
        while i < annotations.len()
            invariant
                i <= annotations.len(),
                all == texts(annotations@),
                self.options() == old(self).options(),
                self.text() == old(self).text() + concat(all.take(i as int)),
            decreases annotations.len() - i,
        {
            let ghost before = self.text();
            push_str(&mut self.output, annotations[i].as_str());
            assert(all.take(i + 1).drop_last() =~= all.take(i as int));
            assert(all.take(i + 1).last() == annotations[i as int]@);
            assert(self.text() =~= old(self).text() + concat(all.take(i + 1)));
            i += 1;
        }
        assert(all.take(annotations.len() as int) =~= all);
    }

    fn visit_atomic(&mut self, data: &AtomicData)
        ensures
            final(self).options() == old(self).options(),
            final(self).text() == emit_atomic(old(self).text(), data@),
    {
        self.visit_annotations(&data.annotations);
        match data.typ {
            AtomicType::QuotedString => {
                self.output.push('"');
                push_str(&mut self.output, data.value.as_str());
                self.output.push('"');
            },
            _ => push_str(&mut self.output, data.value.as_str()),
        }
        assert(self.text() =~= emit_atomic(old(self).text(), data@));
    }

    fn visit_clob(&mut self, data: &ClobData, next_indent: u128)
        requires
            next_indent < u128::MAX,
        ensures
            final(self).options() == old(self).options(),
            final(self).text() == emit_clob(
                old(self).text(),
                texts(data.annotations@),
                part_views(data.clobs@),
                next_indent as nat,
            ),
    {
        self.visit_annotations(&data.annotations);
        self.output.push('{');
        self.output.push('{');
        let ghost open = self.text();
        assert(open =~= old(self).text() + concat(texts(data.annotations@)) + seq!['{', '{']);
        let continuation_indent = if count_clobs_before_newline(&data.clobs) == 0 {
            next_indent + 1
        } else {
            cursor_pos(&self.output) + 1
        };
        let ghost parts = part_views(data.clobs@);
        let mut i: usize = 0;
        while i < data.clobs.len()
            invariant
                i <= data.clobs.len(),
                parts == part_views(data.clobs@),
                self.options() == old(self).options(),
                self.text() == emit_clob_parts(open, parts, i as int, continuation_indent as nat),
            decreases data.clobs.len() - i,
        {
            let expr = &data.clobs[i];
            assert(parts[i as int] == expr@);
            if !expr.is_newlines() && !ends_with_gap(&self.output) {
                self.output.push(' ');
            }
            let ghost start = self.text();
            match expr {
                ClobExpr::Newlines(data) => {
                    self.visit_newlines(data, continuation_indent);
                },
                ClobExpr::MultilineString(data) => self.visit_clob_string(data),
                ClobExpr::QuotedString(data) => self.visit_atomic(data),
            }
            i += 1;
        }
        if !ends_with_gap(&self.output) {
            self.output.push(' ');
        }
        let ghost close = self.text();
        self.output.push('}');
        self.output.push('}');
        assert(self.text() =~= close + seq!['}', '}']);
    }

    fn visit_clob_string(&mut self, data: &MultilineStringData)
        ensures
            final(self).options() == old(self).options(),
            final(self).text() == emit_clob_string(old(self).text(), data@),
    {
        self.output.push('\'');
        self.output.push('\'');
        self.output.push('\'');
        push_str(&mut self.output, data.value.as_str());
        self.output.push('\'');
        self.output.push('\'');
        self.output.push('\'');
        assert(self.text() =~= emit_clob_string(old(self).text(), data@));
    }

    fn visit_comment_block(&mut self, data: &NonAnnotatedStringListData, _next_indent: u128)
        ensures
            final(self).options() == old(self).options(),
            final(self).text() == emit_comment_block(old(self).text(), texts(data.value@)),
    {
        let continuation_indent = cursor_pos(&self.output) + 1;
        self.output.push('/');
        self.output.push('*');
        let ghost open = self.text();
        let ghost all = texts(data.value@);
        assert(open =~= old(self).text() + seq!['/', '*']);
        if data.value.len() == 1 {
            self.output.push(' ');
            let line = trimmed(&to_chars(data.value[0].as_str()));
            push_all(&mut self.output, &line);
            self.output.push(' ');
            self.output.push('*');
            self.output.push('/');
            assert(all[0] == data.value[0]@);
            assert(self.text() =~= emit_comment_block(old(self).text(), all));
        } else {
            let mut i: usize = 0;
            while i < data.value.len()
                invariant
                    i <= data.value.len(),
                    all == texts(data.value@),
                    continuation_indent == cursor_column(old(self).text()) + 1,
                    self.options() == old(self).options(),
                    self.text() == emit_block_lines(
                        open,
                        all,
                        i as int,
                        continuation_indent as nat,
                    ),
                decreases data.value.len() - i,
            {
                let line = to_chars(data.value[i].as_str());
                assert(all[i as int] == line@);
                let blank = all_whitespace(&line);
                let ghost before = self.text();
                if i > 0 && blank && i == data.value.len() - 1 {
                    // A blank last line only carries the end of the comment
                } else {
                    if i > 0 {
                        push_repeated(&mut self.output, ' ', continuation_indent);
                        self.output.push('*');
                    }
                    if !blank {
                        self.output.push(' ');
                    }
                    push_all(&mut self.output, &line);
                    self.output.push('\n');
                    assert(self.text() =~= before + (if i > 0 {
                        repeated(' ', continuation_indent as nat).push('*')
                    } else {
                        Seq::<char>::empty()
                    }) + (if !blank {
                        seq![' ']
                    } else {
                        Seq::<char>::empty()
                    }) + line@ + seq!['\n']);
                }
                i += 1;
            }
            if ends_with_char(&self.output, '\n') {
                push_repeated(&mut self.output, ' ', continuation_indent);
            }
            let ghost close = self.text();
            self.output.push('*');
            self.output.push('/');
            assert(self.text() =~= close + seq!['*', '/']);
        }
    }

    fn visit_comment_line(&mut self, data: &NonAnnotatedStringData, next_indent: u128)
        ensures
            final(self).options() == old(self).options(),
            final(self).text() == old(self).text() + data.value@ + newline_text(
                0,
                next_indent as nat,
            ),
    {
        push_str(&mut self.output, data.value.as_str());
        push_all(&mut self.output, &newline(0, next_indent));
    }

    fn visit_multiline_string(&mut self, data: &MultilineStringData)
        ensures
            final(self).options() == old(self).options(),
            final(self).text() == emit_multiline_string(
                old(self).options(),
                old(self).text(),
                data@,
            ),
    {
        self.visit_annotations(&data.annotations);
        let ghost start = self.text();
        let continuation_indent = cursor_pos(&self.output);
        self.output.push('\'');
        self.output.push('\'');
        self.output.push('\'');
        let ghost open = self.text();
        assert(open =~= start + seq!['\'', '\'', '\'']);
        let raw = to_chars(data.value.as_str());
        let value = if self.config.format_multiline_string_contents {
            indent_continuation_lines(&strip_common_indent(&raw), continuation_indent)
        } else {
            raw
        };
        assert(value@ == multiline_content(
            old(self).options(),
            data.value@,
            continuation_indent as nat,
        ));
        let mut end: usize = value.len();
        assert(value@.take(end as int) =~= value@);
        while end > 0 && char_is_blank(value[end - 1])
            invariant
                end <= value.len(),
                without_trailing_blanks(value@.take(end as int)) == without_trailing_blanks(
                    value@,
                ),
            decreases end,
        {
            assert(value@.take(end as int).drop_last() =~= value@.take(end - 1));
            end -= 1;
        }
        push_all(&mut self.output, &copy_range(&value, 0, end));
        assert(self.text() =~= open + without_trailing_blanks(value@));
        if ends_with_char(&self.output, '\n') {
            push_repeated(&mut self.output, ' ', continuation_indent);
        }
        let ghost close = self.text();
        self.output.push('\'');
        self.output.push('\'');
        self.output.push('\'');
        assert(self.text() =~= close + seq!['\'', '\'', '\'']);
    }

    fn visit_newlines(&mut self, data: &NewlinesData, next_indent: u128)
        ensures
            final(self).options() == old(self).options(),
            final(self).text() == old(self).text() + newline_text(
                data.newline_count as nat,
                next_indent as nat,
            ),
    {
        push_all(&mut self.output, &newline(data.newline_count as usize, next_indent));
    }

    fn visit_sexpr(&mut self, data: &ListData)
        ensures
            final(self).options() == old(self).options(),
            final(self).text() == emit_sexpr(old(self).options(), old(self).text(), data@),
        decreases data, 0int,
    {
        broadcast use lemma_node_views;

        self.visit_annotations(&data.annotations);
        let opening_indent = cursor_pos(&self.output);
        self.output.push('(');
        let ghost open = self.text();
        let ghost nodes = node_views(data.items@);
        let bound = bind_whitespace(&data.items);
        let continuation_indent = calculate_continuation_indent(
            self.config,
            &data.items,
            opening_indent,
        );
        let mut i: usize = 0;
        while i < data.items.len()
            invariant
                i <= data.items.len(),
                continuation_indent < u128::MAX,
                nodes == node_views(data.items@),
                nodes.len() == data.items.len(),
                forall|j: int| 0 <= j < data.items.len() ==> nodes[j] == data.items[j]@,
                bound.len() == data.items.len(),
                forall|j: int| 0 <= j < data.items.len() ==> bound[j] == space_follows(nodes, j),
                self.options() == old(self).options(),
                self.text() == emit_sexpr_items(
                    old(self).options(),
                    open,
                    nodes,
                    i as int,
                    continuation_indent as nat,
                ),
            decreases data.items.len() - i,
        {
            self.visit_expr(&data.items[i], continuation_indent);
            if bound[i] {
                self.output.push(' ');
            }
            i += 1;
        }
        self.output.push(')');
    }

    fn visit_list(&mut self, data: &ListData)
        ensures
            final(self).options() == old(self).options(),
            final(self).text() == emit_list(old(self).options(), old(self).text(), data@),
        decreases data, 0int,
    {
        broadcast use lemma_node_views;

        self.visit_annotations(&data.annotations);
        let opening_indent = cursor_pos(&self.output);
        let continuation_indent = opening_indent + 1;
        self.output.push('[');
        let ghost open = self.text();
        let ghost nodes = node_views(data.items@);
        let mut i: usize = 0;
        while i < data.items.len()
            invariant
                i <= data.items.len(),
                continuation_indent == opening_indent + 1,
                continuation_indent < u128::MAX,
                nodes == node_views(data.items@),
                nodes.len() == data.items.len(),
                forall|j: int| 0 <= j < data.items.len() ==> nodes[j] == data.items[j]@,
                self.options() == old(self).options(),
                self.text() == emit_list_items(
                    old(self).options(),
                    open,
                    nodes,
                    i as int,
                    opening_indent as nat,
                ),
            decreases data.items.len() - i,
        {
            let item = &data.items[i];
            assert(nodes[i as int] == item@);
            if !item.is_newlines() && ends_with_char(&self.output, ',') {
                self.output.push(' ');
            }
            if item.is_newlines() && i == data.items.len() - 1 {
                self.visit_expr(item, opening_indent);
            } else {
                self.visit_expr(item, continuation_indent);
            }
            if item.is_value() && any_value_from(&data.items, i + 1) {
                self.output.push(',');
            }
            i += 1;
        }
        self.output.push(']');
    }

    fn visit_struct_key(&mut self, data: &NonAnnotatedStringData)
        ensures
            final(self).options() == old(self).options(),
            final(self).text() == emit_struct_key(old(self).text(), data.value@),
    {
        if !ends_with_char(&self.output, '\n') {
            self.output.push(' ');
        }
        push_str(&mut self.output, data.value.as_str());
        self.output.push(':');
        assert(self.text() =~= emit_struct_key(old(self).text(), data.value@));
    }

    fn visit_struct(&mut self, data: &ListData)
        ensures
            final(self).options() == old(self).options(),
            final(self).text() == emit_struct(old(self).options(), old(self).text(), data@),
        decreases data, 0int,
    {
        broadcast use lemma_node_views;

        self.visit_annotations(&data.annotations);
        let empty_continuation = cursor_pos(&self.output);
        self.output.push('{');
        let ghost open = self.text();
        let ghost nodes = node_views(data.items@);
        let mut i: usize = 0;
        while i < data.items.len()
            invariant
                i <= data.items.len(),
                nodes == node_views(data.items@),
                nodes.len() == data.items.len(),
                forall|j: int| 0 <= j < data.items.len() ==> nodes[j] == data.items[j]@,
                self.options() == old(self).options(),
                empty_continuation <= 4 * usize::MAX,
                self.text() == emit_struct_items(
                    old(self).options(),
                    open,
                    nodes,
                    i as int,
                    empty_continuation as nat,
                ),
            decreases data.items.len() - i,
        {
            let value = &data.items[i];
            assert(nodes[i as int] == value@);
            if value.is_newlines() {
                let indent = indent_after_break(&data.items, i + 1, empty_continuation);
                self.visit_expr(value, indent);
            } else {
                assert([':', '/']@ =~= seq![':', '/']);
                if ends_with_any(&self.output, &[':', '/']) || value.is_comment() {
                    self.output.push(' ');
                }
                self.visit_expr(value, 0);
                if value.is_value() && any_value_from(&data.items, i + 1) {
                    self.output.push(',');
                }
            }
            i += 1;
        }
        assert(['{', '}', ' ', '\n']@ =~= seq!['{', '}', ' ', '\n']);
        if !ends_with_any(&self.output, &['{', '}', ' ', '\n']) {
            self.output.push(' ');
        }
        self.output.push('}');
    }
}

} // verus!
