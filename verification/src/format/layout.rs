//! What the formatter writes, as functions from the text written so far to the text after
//! a node has been written.
use crate::config::Options;
use crate::model::{
    items_before_newline, newline_count, parts_before_newline, Atom, AtomicType, ClobPart, Compound,
    LongString, Node,
};
use crate::text::{
    cursor_column, ends_in_gap, ends_with_one_of, indent_lines, is_all_whitespace, is_blank,
    repeated, text_width, trim, without_common_indent,
};
use vstd::prelude::*;

verus! {

/// The texts of `parts`, one after the other.
pub open spec fn concat(parts: Seq<Seq<char>>) -> Seq<char>
    decreases parts.len(),
{
    if parts.len() == 0 {
        Seq::empty()
    } else {
        concat(parts.drop_last()) + parts.last()
    }
}

/// `count` newlines, then `indent` spaces.
pub open spec fn newline_text(count: nat, indent: nat) -> Seq<char> {
    repeated('\n', count) + repeated(' ', indent)
}

/// `s` without the spaces and tabs at its end.
pub open spec fn without_trailing_blanks(s: Seq<char>) -> Seq<char>
    decreases s.len(),
{
    if s.len() > 0 && is_blank(s.last()) {
        without_trailing_blanks(s.drop_last())
    } else {
        s
    }
}

/// An atomic value: its annotations as written, then its raw text, which for a quoted
/// string stands between double quotes.
pub open spec fn emit_atomic(out: Seq<char>, a: Atom) -> Seq<char> {
    let o = out + concat(a.annotations);
    if a.typ == AtomicType::QuotedString {
        o + seq!['"'] + a.value + seq!['"']
    } else {
        o + a.value
    }
}

/// A multi-line string inside a clob: its content as it is, between triple quotes.
pub open spec fn emit_clob_string(out: Seq<char>, s: LongString) -> Seq<char> {
    out + seq!['\'', '\'', '\''] + s.value + seq!['\'', '\'', '\'']
}

/// The first `k` lines of a block comment of more than one line. Every line but the
/// first starts with `*` in column `column`; a line that holds text gets a space before
/// it; a blank last line is left out.
pub open spec fn emit_block_lines(out: Seq<char>, lines: Seq<Seq<char>>, k: int, column: nat) -> Seq<
    char,
>
    decreases k,
{
    if k <= 0 || k > lines.len() {
        out
    } else {
        let before = emit_block_lines(out, lines, k - 1, column);
        let i = k - 1;
        let line = lines[i];
        if i > 0 && is_all_whitespace(line) && i == lines.len() - 1 {
            before
        } else {
            let star = if i > 0 {
                repeated(' ', column).push('*')
            } else {
                Seq::<char>::empty()
            };
            let gap = if !is_all_whitespace(line) {
                seq![' ']
            } else {
                Seq::<char>::empty()
            };
            before + star + gap + line + seq!['\n']
        }
    }
}

/// A block comment. One line is written as `/* text */`. More lines are written one per
/// line, with `*/` on a line of its own under the `*` of the lines before.
pub open spec fn emit_comment_block(out: Seq<char>, lines: Seq<Seq<char>>) -> Seq<char> {
    let column = cursor_column(out) + 1;
    let open = out + seq!['/', '*'];
    if lines.len() == 1 {
        open + seq![' '] + trim(lines[0]) + seq![' '] + seq!['*', '/']
    } else {
        let body = emit_block_lines(open, lines, lines.len() as int, column);
        let close = if ends_with_one_of(body, seq!['\n']) {
            body + repeated(' ', column)
        } else {
            body
        };
        close + seq!['*', '/']
    }
}

/// The content of a multi-line string as it is written in column `column`: with
/// reformatting on, the common indentation is taken off and every further line is
/// indented to `column`.
pub open spec fn multiline_content(cfg: Options, value: Seq<char>, column: nat) -> Seq<char> {
    if cfg.format_multiline_string_contents {
        indent_lines(without_common_indent(value), false, column)
    } else {
        value
    }
}

/// A multi-line string: annotations, then the content between triple quotes, without
/// blanks at its end; a closing quote on a line of its own is indented like the opening
/// one.
pub open spec fn emit_multiline_string(cfg: Options, out: Seq<char>, s: LongString) -> Seq<char> {
    let start = out + concat(s.annotations);
    let column = cursor_column(start);
    let body = start + seq!['\'', '\'', '\''] + without_trailing_blanks(
        multiline_content(cfg, s.value, column),
    );
    let close = if ends_with_one_of(body, seq!['\n']) {
        body + repeated(' ', column)
    } else {
        body
    };
    close + seq!['\'', '\'', '\'']
}

/// A struct key: a space unless the line is fresh, then the key and a colon.
pub open spec fn emit_struct_key(out: Seq<char>, text: Seq<char>) -> Seq<char> {
    let start = if !ends_with_one_of(out, seq!['\n']) {
        out.push(' ')
    } else {
        out
    };
    (start + text).push(':')
}

/// One fragment of a clob, after a space if no gap stands before it.
pub open spec fn emit_clob_part(out: Seq<char>, part: ClobPart, indent: nat) -> Seq<char> {
    let start = if !part.is_newlines() && !ends_in_gap(out) {
        out.push(' ')
    } else {
        out
    };
    match part {
        ClobPart::Newlines(b) => start + newline_text(b.count, indent),
        ClobPart::MultilineString(s) => emit_clob_string(start, s),
        ClobPart::QuotedString(a) => emit_atomic(start, a),
    }
}

/// The first `k` fragments of a clob.
pub open spec fn emit_clob_parts(out: Seq<char>, parts: Seq<ClobPart>, k: int, indent: nat) -> Seq<
    char,
>
    decreases k,
{
    if k <= 0 || k > parts.len() {
        out
    } else {
        emit_clob_part(emit_clob_parts(out, parts, k - 1, indent), parts[k - 1], indent)
    }
}

/// A clob: annotations, `{{`, the fragments, a space unless a gap stands there already,
/// and `}}`. Lines continue one column right of the caller's indent if the clob starts
/// with a newline run, else one column right of its second brace.
pub open spec fn emit_clob(
    out: Seq<char>,
    annotations: Seq<Seq<char>>,
    parts: Seq<ClobPart>,
    next_indent: nat,
) -> Seq<char> {
    let open = out + concat(annotations) + seq!['{', '{'];
    let indent = if parts_before_newline(parts) == 0 {
        next_indent + 1
    } else {
        cursor_column(open) + 1
    };
    let body = emit_clob_parts(open, parts, parts.len() as int, indent);
    let close = if !ends_in_gap(body) {
        body.push(' ')
    } else {
        body
    };
    close + seq!['}', '}']
}

/// How the lines of an s-expression continue.
pub enum IndentType {
    /// One column right of the opening parenthesis.
    EndOfOpening,
    /// In the given column, under the first argument.
    EndOfOpeningSymbol(nat),
    /// Two columns right of the opening parenthesis.
    Fixed,
}

/// The text `|`, which opens and closes a short argument list.
pub open spec fn is_arg_symbol(n: Node) -> bool {
    n.symbol_text() == Some(seq!['|'])
}

/// How the lines of an s-expression with the children `items` continue, where the
/// opening parenthesis stands in column `column`.
pub open spec fn indent_type(cfg: Options, items: Seq<Node>, column: nat) -> IndentType {
    if items.len() == 0 {
        IndentType::EndOfOpening
    } else {
        match items[0].symbol_text() {
            Some(symbol) => {
                if cfg.fixed_indent_symbols.contains(symbol) {
                    IndentType::Fixed
                } else if items_before_newline(items) == 1 {
                    IndentType::Fixed
                } else if cfg.smart_indent_symbols.contains(symbol) && newline_count(items) > 3 {
                    IndentType::Fixed
                } else {
                    IndentType::EndOfOpeningSymbol(column + text_width(symbol) + 2)
                }
            },
            None => if items[0].is_sexpr() {
                IndentType::Fixed
            } else {
                IndentType::EndOfOpening
            },
        }
    }
}

/// The column in which the lines of an s-expression continue.
pub open spec fn continuation_indent(cfg: Options, items: Seq<Node>, column: nat) -> nat {
    match indent_type(cfg, items, column) {
        IndentType::EndOfOpening => column + 1,
        IndentType::EndOfOpeningSymbol(indent) => indent,
        IndentType::Fixed => column + 2,
    }
}

/// A space follows child `i` of an s-expression. Between the children of a short argument
/// list `| a b |` there is none but before the closing `|`; elsewhere one follows every
/// child but the last and a newline run.
pub open spec fn space_follows(items: Seq<Node>, i: int) -> bool {
    let in_arg_list = is_arg_symbol(items[0]);
    if i == 0 && in_arg_list {
        false
    } else if i > 0 && in_arg_list && is_arg_symbol(items[i]) {
        true
    } else {
        let next_ends_arg_list = i + 1 < items.len() && in_arg_list && is_arg_symbol(
            items[i + 1],
        );
        !next_ends_arg_list && i != items.len() - 1 && !items[i].is_newlines()
    }
}

/// A value stands at position `from` of `items` or after it.
pub open spec fn has_value_from(items: Seq<Node>, from: int) -> bool {
    exists|j: int| from <= j < items.len() && (#[trigger] items[j]).is_value()
}

/// The first value or struct key at position `from` of `items` or after it.
pub open spec fn next_member(items: Seq<Node>, from: int) -> Option<Node>
    decreases items.len() - from,
{
    if from < 0 || from >= items.len() {
        None
    } else if items[from].is_value() || items[from].is_struct_key() {
        Some(items[from])
    } else {
        next_member(items, from + 1)
    }
}

/// The indent after a newline run in a struct whose brace stands in column `column`,
/// where `next` is the value or key that follows: a key stands one column right of the
/// brace and a value four; before the closing brace the indent is the brace's column.
pub open spec fn struct_break_indent(next: Option<Node>, column: nat) -> nat {
    match next {
        Some(n) => if n.is_struct_key() {
            column + 1
        } else if n.is_struct() {
            column + 4
        } else {
            column + 4
        },
        None => column,
    }
}

/// A node, written after `out`. `next_indent` is the indent that a newline run or a
/// comment asks for.
pub open spec fn emit_node(cfg: Options, out: Seq<char>, n: Node, next_indent: nat) -> Seq<char>
    decreases n, 0int,
{
    match n {
        Node::Atomic(a) => emit_atomic(out, a),
        Node::Clob { annotations, parts, .. } => emit_clob(out, annotations, parts, next_indent),
        Node::CommentBlock { lines, .. } => emit_comment_block(out, lines),
        Node::CommentLine { text, .. } => out + text + newline_text(0, next_indent),
        Node::List(c) => emit_list(cfg, out, c),
        Node::MultilineString(s) => emit_multiline_string(cfg, out, s),
        Node::Newlines(b) => out + newline_text(b.count, next_indent),
        Node::SExpr(c) => emit_sexpr(cfg, out, c),
        Node::Struct(c) => emit_struct(cfg, out, c),
        Node::StructKey { text, .. } => emit_struct_key(out, text),
        Node::StructMember { .. } => out,
    }
}

/// The first `k` of `items`, each written with the same indent.
pub open spec fn emit_all(cfg: Options, out: Seq<char>, items: Seq<Node>, k: int, next_indent: nat) -> Seq<
    char,
>
    decreases items, k,
{
    if k <= 0 || k > items.len() {
        out
    } else {
        emit_node(cfg, emit_all(cfg, out, items, k - 1, next_indent), items[k - 1], next_indent)
    }
}

/// A list: annotations, `[`, the children, `]`. A comma follows every value that has
/// another value after it, and a space follows a comma unless a newline run comes next.
/// Lines continue one column right of the bracket; a newline run that is the last child
/// puts the closing bracket under the opening one.
pub open spec fn emit_list(cfg: Options, out: Seq<char>, c: Compound) -> Seq<char>
    decreases c, 0int,
{
    let start = out + concat(c.annotations);
    let column = cursor_column(start);
    emit_list_items(cfg, start.push('['), c.items, c.items.len() as int, column).push(']')
}

/// The first `k` children of a list whose bracket stands in column `column`.
pub open spec fn emit_list_items(
    cfg: Options,
    out: Seq<char>,
    items: Seq<Node>,
    k: int,
    column: nat,
) -> Seq<char>
    decreases items, k,
{
    if k <= 0 || k > items.len() {
        out
    } else {
        let before = emit_list_items(cfg, out, items, k - 1, column);
        let item = items[k - 1];
        let start = if !item.is_newlines() && ends_with_one_of(before, seq![',']) {
            before.push(' ')
        } else {
            before
        };
        let indent = if item.is_newlines() && k == items.len() {
            column
        } else {
            column + 1
        };
        let after = emit_node(cfg, start, item, indent);
        if item.is_value() && has_value_from(items, k) {
            after.push(',')
        } else {
            after
        }
    }
}

/// An s-expression: annotations, `(`, the children with the spaces between them, `)`.
pub open spec fn emit_sexpr(cfg: Options, out: Seq<char>, c: Compound) -> Seq<char>
    decreases c, 0int,
{
    let start = out + concat(c.annotations);
    let column = cursor_column(start);
    let indent = continuation_indent(cfg, c.items, column);
    emit_sexpr_items(cfg, start.push('('), c.items, c.items.len() as int, indent).push(')')
}

/// The first `k` children of an s-expression whose lines continue in column `indent`.
pub open spec fn emit_sexpr_items(
    cfg: Options,
    out: Seq<char>,
    items: Seq<Node>,
    k: int,
    indent: nat,
) -> Seq<char>
    decreases items, k,
{
    if k <= 0 || k > items.len() {
        out
    } else {
        let after = emit_node(
            cfg,
            emit_sexpr_items(cfg, out, items, k - 1, indent),
            items[k - 1],
            indent,
        );
        if space_follows(items, k - 1) {
            after.push(' ')
        } else {
            after
        }
    }
}

/// A struct: annotations, `{`, the children, a space unless the text ends in a brace, a
/// space or a newline, and `}`.
pub open spec fn emit_struct(cfg: Options, out: Seq<char>, c: Compound) -> Seq<char>
    decreases c, 0int,
{
    let start = out + concat(c.annotations);
    let column = cursor_column(start);
    let body = emit_struct_items(cfg, start.push('{'), c.items, c.items.len() as int, column);
    let close = if !ends_with_one_of(body, seq!['{', '}', ' ', '\n']) {
        body.push(' ')
    } else {
        body
    };
    close.push('}')
}

/// The first `k` children of a struct whose brace stands in column `column`. A newline
/// run takes its indent from what follows it. Any other child comes after a space if it
/// is a comment or follows `:` or `/`, and a comma follows every value that has another
/// value after it.
pub open spec fn emit_struct_items(
    cfg: Options,
    out: Seq<char>,
    items: Seq<Node>,
    k: int,
    column: nat,
) -> Seq<char>
    decreases items, k,
{
    if k <= 0 || k > items.len() {
        out
    } else {
        let before = emit_struct_items(cfg, out, items, k - 1, column);
        let item = items[k - 1];
        if item.is_newlines() {
            emit_node(cfg, before, item, struct_break_indent(next_member(items, k), column))
        } else {
            let start = if ends_with_one_of(before, seq![':', '/']) || item.is_comment() {
                before.push(' ')
            } else {
                before
            };
            let after = emit_node(cfg, start, item, 0);
            if item.is_value() && has_value_from(items, k) {
                after.push(',')
            } else {
                after
            }
        }
    }
}

/// The text of a whole tree before the ends of its lines are trimmed.
pub open spec fn emit_tree(cfg: Options, tree: Seq<Node>) -> Seq<char> {
    emit_all(cfg, Seq::empty(), tree, tree.len() as int, 0)
}


/// An s-expression whose first child is a symbol that the options list for a fixed
/// indent continues two columns right of its parenthesis, whatever its body holds.
pub proof fn lemma_fixed_symbol_indent(cfg: Options, items: Seq<Node>, column: nat)
    requires
        items.len() > 0,
        items[0].symbol_text() matches Some(symbol) && cfg.fixed_indent_symbols.contains(symbol),
    ensures
        indent_type(cfg, items, column) == IndentType::Fixed,
        continuation_indent(cfg, items, column) == column + 2,
{
}

/// An s-expression whose first child is a symbol that the options list nowhere, and which
/// does not break its line right after that symbol, continues under its first argument:
/// in the column of its parenthesis plus the width of the symbol plus two.
pub proof fn lemma_plain_symbol_indent(cfg: Options, items: Seq<Node>, column: nat)
    requires
        items.len() > 0,
        items[0].symbol_text() matches Some(symbol) && !cfg.fixed_indent_symbols.contains(symbol)
            && !cfg.smart_indent_symbols.contains(symbol),
        items_before_newline(items) != 1,
    ensures
        continuation_indent(cfg, items, column) == column + text_width(
            items[0].symbol_text()->0,
        ) + 2,
{
}

/// An s-expression whose first child is neither a symbol nor an s-expression continues
/// one column right of its parenthesis, and one whose first child is an s-expression two
/// columns right of it.
pub proof fn lemma_compound_head_indent(cfg: Options, items: Seq<Node>, column: nat)
    requires
        items.len() > 0,
        !items[0].is_symbol(),
    ensures
        continuation_indent(cfg, items, column) == if items[0].is_sexpr() {
            column + 2
        } else {
            column + 1
        },
{
}

/// In a list, a comma directly follows every value that has another value somewhere
/// after it, whatever stands between the two.
pub proof fn lemma_comma_between_values(
    cfg: Options,
    out: Seq<char>,
    items: Seq<Node>,
    i: int,
    j: int,
    column: nat,
)
    requires
        0 <= i < j < items.len(),
        items[i].is_value(),
        items[j].is_value(),
    ensures
        emit_list_items(cfg, out, items, i + 1, column).len() > 0,
        emit_list_items(cfg, out, items, i + 1, column).last() == ',',
{
    assert(has_value_from(items, i + 1));
}

/// In a list, nothing follows the text of the last value: no comma is written after it.
pub proof fn lemma_no_comma_after_last_value(
    cfg: Options,
    out: Seq<char>,
    items: Seq<Node>,
    i: int,
    column: nat,
)
    requires
        0 <= i < items.len(),
        items[i].is_value(),
        forall|j: int| i < j < items.len() ==> !(#[trigger] items[j]).is_value(),
    ensures
        ({
            let before = emit_list_items(cfg, out, items, i, column);
            let start = if ends_with_one_of(before, seq![',']) {
                before.push(' ')
            } else {
                before
            };
            emit_list_items(cfg, out, items, i + 1, column) == emit_node(
                cfg,
                start,
                items[i],
                column + 1,
            )
        }),
{
    assert(!has_value_from(items, i + 1));
}

} // verus!
