//! The parser: builds the concrete syntax tree of a source text.
use crate::ast::{
    lemma_node_views, node_views, part_views, AtomicData, ClobData, ClobExpr, Expr, ListData,
    MultilineStringData, NewlinesData, NonAnnotatedStringData, NonAnnotatedStringListData,
    StructMemberData,
};
use crate::config::FusionConfig;
use crate::error::{pest_report, render_report, Error};
use crate::grammar::{
    after, annotation_end, annotations, atom, block_comment_nodes, block_lines, clob_rest,
    comment_line, expr, failure_position, file, file_rest, key_end, line_comment_nodes, list_rest,
    lob, long_string, member, scalar, sexpr_rest, short_string, skipped, space_nodes, span_of,
    struct_rest, stuck_at, then, value,
};
use crate::lexer::{
    at, byte_is_space, has_triple_quote, option_int, peek, scan_blob, scan_block_comment,
    scan_boolean, scan_ident, scan_integer, scan_line_comment, scan_long_string, scan_null,
    scan_quoted_symbol, scan_real, scan_short_string, scan_space, scan_symbol, scan_timestamp,
};
use crate::model::{texts, AtomicType, ClobPart, Node};
use crate::source::{bytes_of, slice_text, text_at};
use crate::span::ShortSpan;
use crate::string_util::count_newlines;
use crate::text::{copy_range, lines, split_lines, to_chars, to_string, trimmed, trimmed_end, views};
use vstd::prelude::*;

verus! {

/// The top-level nodes of a source text, or the error for a text that does not parse.
pub type ParseResult = Result<Vec<Expr>, Error>;

/// What a parsing step gave, as the grammar states it.
pub open spec fn seq_result(r: Option<(usize, Vec<Expr>)>) -> Option<(int, Seq<Node>)> {
    match r {
        Some((end, nodes)) => Some((end as int, node_views(nodes@))),
        None => None,
    }
}

/// What a parsing step gave, as the grammar states it.
pub open spec fn node_result(r: Option<(usize, Expr)>) -> Option<(int, Node)> {
    match r {
        Some((end, node)) => Some((end as int, node@)),
        None => None,
    }
}

/// The views of optional nodes.
pub open spec fn option_nodes(r: Option<Vec<Expr>>) -> Option<Seq<Node>> {
    match r {
        Some(nodes) => Some(node_views(nodes@)),
        None => None,
    }
}

/// The lines of the block comment `comment`: the text between `/*` and `*/`, line by
/// line, each trimmed and without a `*` at its start and one space after it.
pub fn block_comment_lines(comment: &str) -> (out: Vec<String>)
    ensures
        texts(out@) == block_lines(comment@),
{
    let chars = to_chars(comment);
    // Chop off the '/*' and '*/'
    let body = if chars.len() >= 4 {
        copy_range(&chars, 2, chars.len() - 2)
    } else {
        Vec::new()
    };
    let ls = split_lines(&body);
    let mut out: Vec<String> = Vec::new();
    let mut i: usize = 0;
    let ghost all = lines(body@);
    while i < ls.len()
        invariant
            i <= ls.len(),
            views(ls@) == all,
            out.len() == i,
            forall|j: int| 0 <= j < i ==> out[j]@ == comment_line(all[j]),
        decreases ls.len() - i,
    {
        assert(all[i as int] == ls[i as int]@);
        let line = trimmed(&ls[i]);
        // Chop off a starting asterisk and a single space after it
        let mut from: usize = 0;
        if line.len() > 0 && line[0] == '*' {
            from = 1;
            if line.len() > 1 && line[1] == ' ' {
                from = 2;
            }
        }
        let kept = copy_range(&line, from, line.len());
        assert(kept@ =~= comment_line(all[i as int]));
        out.push(to_string(&kept));
        i += 1;
    }
    assert(texts(out@) =~= block_lines(comment@));
    out
}

/// The node for the whitespace from `start` to `end`.
fn visit_whitespace(source: &str, start: usize, end: usize) -> (out: Option<Vec<Expr>>)
    ensures
        option_nodes(out) == space_nodes(bytes_of(source@), start as int, end as int),
{
    broadcast use lemma_node_views;

    match slice_text(source, start, end) {
        Some(text) => {
            let newline_count = count_newlines(text.as_str());
            let mut nodes: Vec<Expr> = Vec::new();
            if newline_count > 0 {
                let count = (newline_count % 0x10000) as u16;
                nodes.push(Expr::Newlines(NewlinesData::new(ShortSpan::new(start, end), count)));
            }
            assert(option_nodes(Some(nodes)) =~= space_nodes(
                bytes_of(source@),
                start as int,
                end as int,
            )) by {
                if newline_count > 0 {
                    assert(node_views(nodes@) =~= seq![nodes[0]@]);
                } else {
                    assert(node_views(nodes@) =~= Seq::<Node>::empty());
                }
            }
            Some(nodes)
        },
        None => None,
    }
}

/// The nodes for the line comment from `start` to `end`.
fn visit_line_comment(source: &str, start: usize, end: usize) -> (out: Option<Vec<Expr>>)
    ensures
        option_nodes(out) == line_comment_nodes(bytes_of(source@), start as int, end as int),
{
    broadcast use lemma_node_views;

    match slice_text(source, start, end) {
        Some(text) => {
            let span = ShortSpan::new(start, end);
            let chars = to_chars(text.as_str());
            let n = trimmed_end(&chars, chars.len());
            assert(chars@.take(chars.len() as int) =~= chars@);
            let value = to_string(&copy_range(&chars, 0, n));
            let mut nodes: Vec<Expr> = Vec::new();
            nodes.push(Expr::CommentLine(NonAnnotatedStringData::new(span, value)));
            nodes.push(Expr::Newlines(NewlinesData::new(span, 1)));
            assert(node_views(nodes@) =~= seq![nodes[0]@, nodes[1]@]);
            Some(nodes)
        },
        None => None,
    }
}

/// The node for the block comment from `start` to `end`.
fn visit_block_comment(source: &str, start: usize, end: usize) -> (out: Option<Vec<Expr>>)
    ensures
        option_nodes(out) == block_comment_nodes(bytes_of(source@), start as int, end as int),
{
    broadcast use lemma_node_views;

    match slice_text(source, start, end) {
        Some(text) => {
            let span = ShortSpan::new(start, end);
            let mut nodes: Vec<Expr> = Vec::new();
            nodes.push(
                Expr::CommentBlock(
                    NonAnnotatedStringListData::new(span, block_comment_lines(text.as_str())),
                ),
            );
            assert(node_views(nodes@) =~= seq![nodes[0]@]);
            Some(nodes)
        },
        None => None,
    }
}

/// An empty sequence of nodes.
fn no_nodes() -> (nodes: Vec<Expr>)
    ensures
        node_views(nodes@) == Seq::<Node>::empty(),
{
    broadcast use lemma_node_views;

    let nodes: Vec<Expr> = Vec::new();
    assert(node_views(nodes@) =~= Seq::<Node>::empty());
    nodes
}

/// Appends `node` to `nodes`.
fn push_node(nodes: &mut Vec<Expr>, node: Expr)
    ensures
        node_views(final(nodes)@) == node_views(old(nodes)@).push(node@),
{
    broadcast use lemma_node_views;

    let ghost before = node_views(nodes@);
    nodes.push(node);
    assert(node_views(nodes@) =~= before.push(node@));
}

/// Appends `more` to `nodes`.
fn append(nodes: &mut Vec<Expr>, more: Vec<Expr>)
    ensures
        node_views(final(nodes)@) == node_views(old(nodes)@) + node_views(more@),
{
    broadcast use lemma_node_views;

    let mut more = more;
    let ghost added = node_views(more@);
    let ghost before = node_views(nodes@);
    nodes.append(&mut more);
    assert(node_views(nodes@) =~= before + added);
}

/// Whitespace and comments at `pos`, as far as they go.
fn visit_skipped(source: &str, b: &[u8], pos: usize) -> (out: Option<(usize, Vec<Expr>)>)
    requires
        b@ == bytes_of(source@),
        pos <= b.len(),
    ensures
        seq_result(out) == skipped(b@, pos as int),
        out matches Some((end, _)) ==> pos <= end <= b.len(),
{
    reveal(skipped);
    let mut nodes: Vec<Expr> = no_nodes();
    let mut i: usize = pos;
    loop
        invariant
            b@ == bytes_of(source@),
            pos <= i <= b.len(),
            skipped(b@, pos as int) == after(node_views(nodes@), skipped(b@, i as int)),
        decreases b.len() - i,
    {
        reveal(skipped);
        let ghost before = node_views(nodes@);
        let c = peek(b, i, 0);
        let found = if i < b.len() && byte_is_space(c) {
            let end = scan_space(b, i);
            match visit_whitespace(source, i, end) {
                Some(more) => Some((end, more)),
                None => {
                    return None;
                },
            }
        } else if c == 0x2F && peek(b, i, 1) == 0x2F {
            match scan_line_comment(b, i) {
                Some(end) => match visit_line_comment(source, i, end) {
                    Some(more) => Some((end, more)),
                    None => {
                        return None;
                    },
                },
                None => {
                    return None;
                },
            }
        } else if c == 0x2F && peek(b, i, 1) == 0x2A {
            match scan_block_comment(b, i) {
                Some(end) => match visit_block_comment(source, i, end) {
                    Some(more) => Some((end, more)),
                    None => {
                        return None;
                    },
                },
                None => {
                    return None;
                },
            }
        } else {
            None
        };
        match found {
            Some((end, more)) => {
                let ghost added = node_views(more@);
                append(&mut nodes, more);
                proof {
                    let rest = skipped(b@, end as int);
                    assert(skipped(b@, i as int) == after(added, rest));
                    match rest {
                        Some((last, tail)) => {
                            assert(before + (added + tail) =~= (before + added) + tail);
                        },
                        None => {},
                    }
                }
                i = end;
            },
            None => {
                assert(before + Seq::<Node>::empty() =~= before);
                return Some((i, nodes));
            },
        }
    }
}

/// The atomic value of kind `typ` whose text reaches from `start` to `end`.
fn visit_atomic(typ: AtomicType, source: &str, start: usize, end: Option<usize>) -> (out: Option<
    (usize, Expr),
>)
    ensures
        node_result(out) == atom(typ, bytes_of(source@), start as int, option_int(end)),
        out matches Some((e, _)) ==> end == Some(e),
{
    match end {
        Some(e) => match slice_text(source, start, e) {
            Some(value) => {
                let data = AtomicData::new(typ, ShortSpan::new(start, e), Vec::new(), value);
                assert(data@.annotations =~= Seq::<Seq<char>>::empty());
                Some((e, Expr::Atomic(data)))
            },
            None => None,
        },
        None => None,
    }
}

/// The null, boolean, timestamp, number or symbol at `pos`.
fn visit_scalar(source: &str, b: &[u8], pos: usize) -> (out: Option<(usize, Expr)>)
    requires
        b@ == bytes_of(source@),
        pos <= b.len(),
    ensures
        node_result(out) == scalar(b@, pos as int),
        out matches Some((end, _)) ==> pos < end <= b.len(),
{
    let null = scan_null(b, pos);
    if null.is_some() {
        return visit_atomic(AtomicType::Null, source, pos, null);
    }
    let boolean = scan_boolean(b, pos);
    if boolean.is_some() {
        return visit_atomic(AtomicType::Boolean, source, pos, boolean);
    }
    let timestamp = scan_timestamp(b, pos);
    if timestamp.is_some() {
        return visit_atomic(AtomicType::Timestamp, source, pos, timestamp);
    }
    let number = scan_real(b, pos);
    if number.is_some() {
        return visit_atomic(AtomicType::Real, source, pos, number);
    }
    let integer = scan_integer(b, pos);
    if integer.is_some() {
        return visit_atomic(AtomicType::Integer, source, pos, integer);
    }
    visit_atomic(AtomicType::Symbol, source, pos, scan_symbol(b, pos))
}

/// The short string at `pos`.
fn visit_short_string(source: &str, b: &[u8], pos: usize) -> (out: Option<(usize, AtomicData)>)
    requires
        b@ == bytes_of(source@),
        pos <= b.len(),
    ensures
        match out {
            Some((end, data)) => short_string(b@, pos as int) == Some((end as int, data@)),
            None => short_string(b@, pos as int) is None,
        },
        out matches Some((end, _)) ==> pos < end <= b.len(),
{
    match scan_short_string(b, pos) {
        Some(e) => match slice_text(source, pos + 1, e - 1) {
            Some(value) => {
                let data = AtomicData::new(
                    AtomicType::QuotedString,
                    ShortSpan::new(pos, e),
                    Vec::new(),
                    value,
                );
                assert(data@.annotations =~= Seq::<Seq<char>>::empty());
                Some((e, data))
            },
            None => None,
        },
        None => None,
    }
}

/// The long string at `pos`.
fn visit_long_string(source: &str, b: &[u8], pos: usize) -> (out: Option<
    (usize, MultilineStringData),
>)
    requires
        b@ == bytes_of(source@),
        pos <= b.len(),
    ensures
        match out {
            Some((end, data)) => long_string(b@, pos as int) == Some((end as int, data@)),
            None => long_string(b@, pos as int) is None,
        },
        out matches Some((end, _)) ==> pos < end <= b.len(),
{
    match scan_long_string(b, pos) {
        Some(e) => match slice_text(source, pos + 3, e - 3) {
            Some(value) => {
                let data = MultilineStringData::new(ShortSpan::new(pos, e), Vec::new(), value);
                assert(data@.annotations =~= Seq::<Seq<char>>::empty());
                Some((e, data))
            },
            None => None,
        },
        None => None,
    }
}

/// End of the annotation at `pos`.
pub(crate) fn scan_annotation(b: &[u8], pos: usize) -> (r: Option<usize>)
    requires
        pos <= b.len(),
    ensures
        option_int(r) == annotation_end(b@, pos as int),
        r matches Some(e) ==> pos < e <= b.len(),
{
    let name = match scan_quoted_symbol(b, pos) {
        Some(e) => Some(e),
        None => scan_ident(b, pos),
    };
    match name {
        Some(e) => {
            let colons = scan_space(b, e);
            if peek(b, colons, 0) == 0x3A && peek(b, colons, 1) == 0x3A {
                Some(colons + 2)
            } else {
                None
            }
        },
        None => None,
    }
}

/// The annotations at `pos`, and the position after them and the whitespace that
/// follows.
fn visit_annotations(source: &str, b: &[u8], pos: usize) -> (out: Option<(usize, Vec<String>)>)
    requires
        b@ == bytes_of(source@),
        pos <= b.len(),
    ensures
        match out {
            Some((end, notes)) => annotations(b@, pos as int) == Some((end as int, texts(notes@))),
            None => annotations(b@, pos as int) is None,
        },
        out matches Some((end, _)) ==> pos <= end <= b.len(),
{
    reveal(annotations);
    let mut notes: Vec<String> = Vec::new();
    let mut i: usize = pos;
    assert(texts(notes@) =~= Seq::<Seq<char>>::empty());
    loop
        invariant
            b@ == bytes_of(source@),
            pos <= i <= b.len(),
            annotations(b@, pos as int) == (match annotations(b@, i as int) {
                Some((end, rest)) => Some((end, texts(notes@) + rest)),
                None => None,
            }),
        decreases b.len() - i,
    {
        reveal(annotations);
        let ghost before = texts(notes@);
        match scan_annotation(b, i) {
            Some(end) => {
                let next = scan_space(b, end);
                match slice_text(source, i, end) {
                    Some(text) => {
                        notes.push(text);
                        proof {
                            assert(texts(notes@) =~= before + seq![text@]);
                            match annotations(b@, next as int) {
                                Some((last, rest)) => {
                                    assert(before + (seq![text@] + rest) =~= (before + seq![
                                        text@,
                                    ]) + rest);
                                },
                                None => {},
                            }
                        }
                        i = next;
                    },
                    None => {
                        return None;
                    },
                }
            },
            None => {
                assert(before + Seq::<Seq<char>>::empty() =~= before);
                return Some((i, notes));
            },
        }
    }
}

/// The fragments of a clob from `pos` up to and with its closing braces.
pub(crate) fn visit_clob_rest(source: &str, b: &[u8], pos: usize) -> (out: Option<(usize, Vec<ClobExpr>)>)
    requires
        b@ == bytes_of(source@),
        pos <= b.len(),
    ensures
        match out {
            Some((end, parts)) => clob_rest(b@, pos as int) == Some(
                (end as int, part_views(parts@)),
            ),
            None => clob_rest(b@, pos as int) is None,
        },
        out matches Some((end, _)) ==> pos < end <= b.len(),
{
    reveal(clob_rest);
    let mut parts: Vec<ClobExpr> = Vec::new();
    let mut i: usize = pos;
    assert(part_views(parts@) =~= Seq::<ClobPart>::empty());
    loop
        invariant
            b@ == bytes_of(source@),
            pos <= i <= b.len(),
            clob_rest(b@, pos as int) == (match clob_rest(b@, i as int) {
                Some((end, rest)) => Some((end, part_views(parts@) + rest)),
                None => None,
            }),
        decreases b.len() - i,
    {
        reveal(clob_rest);
        let ghost before = part_views(parts@);
        if i >= b.len() {
            return None;
        }
        let c = b[i];
        if byte_is_space(c) {
            let end = scan_space(b, i);
            match slice_text(source, i, end) {
                Some(text) => {
                    let newline_count = count_newlines(text.as_str());
                    if newline_count > 0 {
                        let count = (newline_count % 0x10000) as u16;
                        let part = ClobExpr::Newlines(
                            NewlinesData::new(ShortSpan::new(i, end), count),
                        );
                        parts.push(part);
                        proof {
                            assert(part_views(parts@) =~= before + seq![part@]);
                            match clob_rest(b@, end as int) {
                                Some((last, rest)) => {
                                    assert(before + (seq![part@] + rest) =~= (before + seq![
                                        part@,
                                    ]) + rest);
                                },
                                None => {},
                            }
                        }
                    }
                    i = end;
                },
                None => {
                    return None;
                },
            }
        } else if c == 0x7D && peek(b, i, 1) == 0x7D {
            assert(before + Seq::<ClobPart>::empty() =~= before);
            return Some((i + 2, parts));
        } else if has_triple_quote(b, i) {
            match visit_long_string(source, b, i) {
                Some((end, data)) => {
                    let part = ClobExpr::MultilineString(data);
                    parts.push(part);
                    proof {
                        assert(part_views(parts@) =~= before + seq![part@]);
                        match clob_rest(b@, end as int) {
                            Some((last, rest)) => {
                                assert(before + (seq![part@] + rest) =~= (before + seq![part@])
                                    + rest);
                            },
                            None => {},
                        }
                    }
                    i = end;
                },
                None => {
                    return None;
                },
            }
        } else {
            match visit_short_string(source, b, i) {
                Some((end, data)) => {
                    let part = ClobExpr::QuotedString(data);
                    parts.push(part);
                    proof {
                        assert(part_views(parts@) =~= before + seq![part@]);
                        match clob_rest(b@, end as int) {
                            Some((last, rest)) => {
                                assert(before + (seq![part@] + rest) =~= (before + seq![part@])
                                    + rest);
                            },
                            None => {},
                        }
                    }
                    i = end;
                },
                None => {
                    return None;
                },
            }
        }
    }
}

/// The blob or clob at `pos`, where `{{` stands.
fn visit_lob(source: &str, b: &[u8], pos: usize) -> (out: Option<(usize, Expr)>)
    requires
        b@ == bytes_of(source@),
        pos + 2 <= b.len(),
    ensures
        node_result(out) == lob(b@, pos as int),
        out matches Some((end, _)) ==> pos < end <= b.len(),
{
    let blob = scan_blob(b, pos);
    if blob.is_some() {
        visit_atomic(AtomicType::Blob, source, pos, blob)
    } else {
        match visit_clob_rest(source, b, pos + 2) {
            Some((end, parts)) => {
                let data = ClobData::new(ShortSpan::new(pos, end), Vec::new(), parts);
                assert(texts(data.annotations@) =~= Seq::<Seq<char>>::empty());
                Some((end, Expr::Clob(data)))
            },
            None => None,
        }
    }
}

/// End of the key of a struct member at `pos`.
fn scan_key(b: &[u8], pos: usize) -> (r: Option<usize>)
    requires
        pos <= b.len(),
    ensures
        option_int(r) == key_end(b@, pos as int),
        r matches Some(e) ==> pos < e <= b.len(),
{
    match scan_quoted_symbol(b, pos) {
        Some(e) => Some(e),
        None => match scan_ident(b, pos) {
            Some(e) => Some(e),
            None => scan_short_string(b, pos),
        },
    }
}

/// A list, an s-expression or a struct from `pos` to `end` with the children `lead`
/// followed by `items`.
fn compound(pos: usize, end: usize, lead: Vec<Expr>, items: Vec<Expr>) -> (data: ListData)
    ensures
        data@.span == span_of(pos as int, end as int),
        data@.annotations == Seq::<Seq<char>>::empty(),
        data@.items == node_views(lead@) + node_views(items@),
{
    let mut all = lead;
    append(&mut all, items);
    let data = ListData::new(ShortSpan::new(pos, end), Vec::new(), all);
    assert(data@.annotations =~= Seq::<Seq<char>>::empty());
    data
}

/// The value at `pos`, without annotations.
pub(crate) fn visit_value(source: &str, b: &[u8], pos: usize) -> (out: Option<(usize, Expr)>)
    requires
        b@ == bytes_of(source@),
        pos <= b.len(),
    ensures
        node_result(out) == value(b@, pos as int),
        out matches Some((end, node)) ==> pos < end <= b.len() && node@.is_annotatable(),
    decreases b.len() - pos, 1int,
{
    if pos >= b.len() {
        return None;
    }
    let c = b[pos];
    if c == 0x7B && peek(b, pos, 1) == 0x7B {
        visit_lob(source, b, pos)
    } else if c == 0x7B {
        match visit_skipped(source, b, pos + 1) {
            Some((start, lead)) => match visit_structure_rest(source, b, start) {
                Some((end, items)) => Some((end, Expr::Struct(compound(pos, end, lead, items)))),
                None => None,
            },
            None => None,
        }
    } else if c == 0x5B {
        match visit_skipped(source, b, pos + 1) {
            Some((start, lead)) => match visit_list_rest(source, b, start) {
                Some((end, items)) => Some((end, Expr::List(compound(pos, end, lead, items)))),
                None => None,
            },
            None => None,
        }
    } else if c == 0x28 {
        match visit_skipped(source, b, pos + 1) {
            Some((start, lead)) => match visit_sexpr_rest(source, b, start) {
                Some((end, items)) => Some((end, Expr::SExpr(compound(pos, end, lead, items)))),
                None => None,
            },
            None => None,
        }
    } else if c == 0x22 {
        match visit_short_string(source, b, pos) {
            Some((end, data)) => Some((end, Expr::Atomic(data))),
            None => None,
        }
    } else if has_triple_quote(b, pos) {
        match visit_long_string(source, b, pos) {
            Some((end, data)) => Some((end, Expr::MultilineString(data))),
            None => None,
        }
    } else {
        visit_scalar(source, b, pos)
    }
}

/// The expression at `pos`: annotations if any, and a value that carries them.
pub(crate) fn visit_expr(source: &str, b: &[u8], pos: usize) -> (out: Option<(usize, Expr)>)
    requires
        b@ == bytes_of(source@),
        pos <= b.len(),
    ensures
        node_result(out) == expr(b@, pos as int),
        out matches Some((end, _)) ==> pos < end <= b.len(),
    decreases b.len() - pos, 2int,
{
    match visit_annotations(source, b, pos) {
        Some((start, notes)) => match visit_value(source, b, start) {
            Some((end, node)) => Some((end, node.attach_annotations(notes))),
            None => None,
        },
        None => None,
    }
}

/// The children of a list from `pos` up to and with its closing bracket.
fn visit_list_rest(source: &str, b: &[u8], pos: usize) -> (out: Option<(usize, Vec<Expr>)>)
    requires
        b@ == bytes_of(source@),
        pos <= b.len(),
    ensures
        seq_result(out) == list_rest(b@, pos as int),
        out matches Some((end, _)) ==> pos < end <= b.len(),
    decreases b.len() - pos, 3int,
{
    let mut nodes: Vec<Expr> = no_nodes();
    let mut i: usize = pos;
    loop
        invariant
            b@ == bytes_of(source@),
            pos <= i <= b.len(),
            list_rest(b@, pos as int) == after(node_views(nodes@), list_rest(b@, i as int)),
        decreases b.len() - i,
    {
        let ghost before = node_views(nodes@);
        if peek(b, i, 0) == 0x5D {
            assert(before + Seq::<Node>::empty() =~= before);
            return Some((i + 1, nodes));
        }
        let (end, node) = match visit_expr(source, b, i) {
            Some(found) => found,
            None => {
                return None;
            },
        };
        let (next, gap) = match visit_skipped(source, b, end) {
            Some(found) => found,
            None => {
                return None;
            },
        };
        let ghost item = node@;
        let ghost gap_nodes = node_views(gap@);
        push_node(&mut nodes, node);
        append(&mut nodes, gap);
        assert(node_views(nodes@) =~= before + (seq![item] + gap_nodes));
        let c = peek(b, next, 0);
        if c == 0x5D {
            return Some((next + 1, nodes));
        } else if c == 0x2C {
            let (more, gap2) = match visit_skipped(source, b, next + 1) {
                Some(found) => found,
                None => {
                    return None;
                },
            };
            let ghost gap2_nodes = node_views(gap2@);
            append(&mut nodes, gap2);
            proof {
                assert(node_views(nodes@) =~= before + (seq![item] + gap_nodes + gap2_nodes));
                match list_rest(b@, more as int) {
                    Some((last, tail)) => {
                        assert(before + ((seq![item] + gap_nodes + gap2_nodes) + tail) =~= (before
                            + (seq![item] + gap_nodes + gap2_nodes)) + tail);
                    },
                    None => {},
                }
            }
            i = more;
        } else {
            return None;
        }
    }
}

/// The children of an s-expression from `pos` up to and with its closing parenthesis.
fn visit_sexpr_rest(source: &str, b: &[u8], pos: usize) -> (out: Option<(usize, Vec<Expr>)>)
    requires
        b@ == bytes_of(source@),
        pos <= b.len(),
    ensures
        seq_result(out) == sexpr_rest(b@, pos as int),
        out matches Some((end, _)) ==> pos < end <= b.len(),
    decreases b.len() - pos, 3int,
{
    let mut nodes: Vec<Expr> = no_nodes();
    let mut i: usize = pos;
    loop
        invariant
            b@ == bytes_of(source@),
            pos <= i <= b.len(),
            sexpr_rest(b@, pos as int) == after(node_views(nodes@), sexpr_rest(b@, i as int)),
        decreases b.len() - i,
    {
        let ghost before = node_views(nodes@);
        if peek(b, i, 0) == 0x29 {
            assert(before + Seq::<Node>::empty() =~= before);
            return Some((i + 1, nodes));
        }
        let (end, node) = match visit_expr(source, b, i) {
            Some(found) => found,
            None => {
                return None;
            },
        };
        let (next, gap) = match visit_skipped(source, b, end) {
            Some(found) => found,
            None => {
                return None;
            },
        };
        let ghost item = node@;
        let ghost gap_nodes = node_views(gap@);
        push_node(&mut nodes, node);
        append(&mut nodes, gap);
        proof {
            assert(node_views(nodes@) =~= before + (seq![item] + gap_nodes));
            match sexpr_rest(b@, next as int) {
                Some((last, tail)) => {
                    assert(before + ((seq![item] + gap_nodes) + tail) =~= (before + (seq![item]
                        + gap_nodes)) + tail);
                },
                None => {},
            }
        }
        i = next;
    }
}

/// The member of a struct at `pos`.
fn visit_structure_member(source: &str, b: &[u8], pos: usize) -> (out: Option<(usize, Expr)>)
    requires
        b@ == bytes_of(source@),
        pos <= b.len(),
    ensures
        node_result(out) == member(b@, pos as int),
        out matches Some((end, _)) ==> pos < end <= b.len(),
    decreases b.len() - pos, 3int,
{
    let key_end = match scan_key(b, pos) {
        Some(e) => e,
        None => {
            return None;
        },
    };
    let text = slice_text(source, pos, key_end);
    let skipped = visit_skipped(source, b, key_end);
    let (text, colon, gap) = match (text, skipped) {
        (Some(text), Some((colon, gap))) => (text, colon, gap),
        _ => {
            return None;
        },
    };
    if peek(b, colon, 0) != 0x3A {
        return None;
    }
    let (start, gap2) = match visit_skipped(source, b, colon + 1) {
        Some(found) => found,
        None => {
            return None;
        },
    };
    let (end, node) = match visit_expr(source, b, start) {
        Some(found) => found,
        None => {
            return None;
        },
    };
    let key = Expr::StructKey(NonAnnotatedStringData::new(ShortSpan::new(pos, key_end), text));
    let ghost key_node = key@;
    let ghost gap_nodes = node_views(gap@);
    let ghost gap2_nodes = node_views(gap2@);
    let ghost value_node = node@;
    let mut items: Vec<Expr> = no_nodes();
    push_node(&mut items, key);
    append(&mut items, gap);
    append(&mut items, gap2);
    push_node(&mut items, node);
    assert(node_views(items@) =~= seq![key_node] + gap_nodes + gap2_nodes + seq![value_node]);
    Some((end, Expr::StructMember(StructMemberData::new(ShortSpan::new(pos, end), items))))
}

/// The children of a struct from `pos` up to and with its closing brace.
fn visit_structure_rest(source: &str, b: &[u8], pos: usize) -> (out: Option<(usize, Vec<Expr>)>)
    requires
        b@ == bytes_of(source@),
        pos <= b.len(),
    ensures
        seq_result(out) == struct_rest(b@, pos as int),
        out matches Some((end, _)) ==> pos < end <= b.len(),
    decreases b.len() - pos, 4int,
{
    let mut nodes: Vec<Expr> = no_nodes();
    let mut i: usize = pos;
    loop
        invariant
            b@ == bytes_of(source@),
            pos <= i <= b.len(),
            struct_rest(b@, pos as int) == after(node_views(nodes@), struct_rest(b@, i as int)),
        decreases b.len() - i,
    {
        let ghost before = node_views(nodes@);
        if peek(b, i, 0) == 0x7D {
            assert(before + Seq::<Node>::empty() =~= before);
            return Some((i + 1, nodes));
        }
        let (end, node) = match visit_structure_member(source, b, i) {
            Some(found) => found,
            None => {
                return None;
            },
        };
        let (next, gap) = match visit_skipped(source, b, end) {
            Some(found) => found,
            None => {
                return None;
            },
        };
        let ghost item = node@;
        let ghost gap_nodes = node_views(gap@);
        push_node(&mut nodes, node);
        append(&mut nodes, gap);
        assert(node_views(nodes@) =~= before + (seq![item] + gap_nodes));
        let c = peek(b, next, 0);
        if c == 0x7D {
            return Some((next + 1, nodes));
        } else if c == 0x2C {
            let (more, gap2) = match visit_skipped(source, b, next + 1) {
                Some(found) => found,
                None => {
                    return None;
                },
            };
            let ghost gap2_nodes = node_views(gap2@);
            append(&mut nodes, gap2);
            proof {
                assert(node_views(nodes@) =~= before + (seq![item] + gap_nodes + gap2_nodes));
                match struct_rest(b@, more as int) {
                    Some((last, tail)) => {
                        assert(before + ((seq![item] + gap_nodes + gap2_nodes) + tail) =~= (before
                            + (seq![item] + gap_nodes + gap2_nodes)) + tail);
                    },
                    None => {},
                }
            }
            i = more;
        } else {
            return None;
        }
    }
}

/// What the error for a text that does not parse says.
pub const PARSE_FAILURE: &'static str = "expected an expression";

/// The message of the error for the text `source` of the file `file_name`, which does
/// not parse: the report on the position at which parsing stopped.
pub open spec fn failure_message(file_name: Seq<char>, source: Seq<char>) -> Seq<char> {
    let at = failure_position(bytes_of(source));
    if text_at(bytes_of(source), at, at) is Some {
        pest_report(file_name, source, at as usize, at as usize, PARSE_FAILURE@)
    } else {
        file_name + PARSE_FAILURE@
    }
}

/// The error for a text that does not parse at `at`.
fn failure(file_name: &str, source: &str, at: usize) -> (error: Error)
    ensures
        error.span() is None,
        error.message() == (if text_at(bytes_of(source@), at as int, at as int) is Some {
            pest_report(file_name@, source@, at, at, PARSE_FAILURE@)
        } else {
            file_name@ + PARSE_FAILURE@
        }),
{
    match render_report(file_name, source, at, at, PARSE_FAILURE) {
        Some(report) => Error::Generic(report),
        None => {
            let mut message = file_name.to_owned();
            message.append(PARSE_FAILURE);
            Error::Generic(message)
        },
    }
}

/// `front` followed by `rest`, if there is a rest.
pub open spec fn followed(front: Seq<Node>, rest: Option<Seq<Node>>) -> Option<Seq<Node>> {
    match rest {
        Some(nodes) => Some(front + nodes),
        None => None,
    }
}

/// The top-level expression at `pos` with the whitespace and comments after it, and the
/// position after them; or the position at which parsing stops.
fn visit_form(source: &str, b: &[u8], pos: usize) -> (out: Result<(usize, Vec<Expr>), usize>)
    requires
        b@ == bytes_of(source@),
        pos < b.len(),
    ensures
        match out {
            Ok((next, nodes)) => pos < next <= b.len() && file_rest(b@, pos as int) == followed(
                node_views(nodes@),
                file_rest(b@, next as int),
            ) && stuck_at(b@, pos as int) == stuck_at(b@, next as int),
            Err(at) => file_rest(b@, pos as int) is None && stuck_at(b@, pos as int) == at,
        },
{
    reveal(file_rest);
    reveal(stuck_at);
    let (end, node) = match visit_expr(source, b, pos) {
        Some(found) => found,
        None => {
            return Err(pos);
        },
    };
    let (next, gap) = match visit_skipped(source, b, end) {
        Some(found) => found,
        None => {
            return Err(end);
        },
    };
    let ghost item = node@;
    let ghost gap_nodes = node_views(gap@);
    let mut nodes: Vec<Expr> = no_nodes();
    push_node(&mut nodes, node);
    append(&mut nodes, gap);
    proof {
        assert(node_views(nodes@) =~= seq![item] + gap_nodes);
    }
    Ok((next, nodes))
}

/// The tree of the source text `source`: its top-level expressions in source order, with
/// comments and newline runs among them. Fails exactly if the text does not match the
/// grammar; the error then reports the position at which parsing stopped.
pub fn parse(file_name: &str, source: &str, config: &FusionConfig) -> (result: ParseResult)
    ensures
        match result {
            Ok(ast) => file(bytes_of(source@)) == Some(node_views(ast@)),
            Err(error) => file(bytes_of(source@)) is None && error.span() is None
                && error.message() == failure_message(file_name@, source@),
        },
{
    let b = source.as_bytes();
    let (start, lead) = match visit_skipped(source, b, 0) {
        Some(found) => found,
        None => {
            return Err(failure(file_name, source, 0));
        },
    };
    let mut nodes: Vec<Expr> = lead;
    let mut i: usize = start;
    let ghost first = node_views(nodes@);
    while i < b.len()
        invariant
            b@ == bytes_of(source@),
            start <= i <= b.len(),
            skipped(b@, 0) == Some((start as int, first)),
            stuck_at(b@, start as int) == stuck_at(b@, i as int),
            followed(first, file_rest(b@, start as int)) == followed(
                node_views(nodes@),
                file_rest(b@, i as int),
            ),
        decreases b.len() - i,
    {
        let ghost before = node_views(nodes@);
        match visit_form(source, b, i) {
            Ok((next, more)) => {
                let ghost added = node_views(more@);
                append(&mut nodes, more);
                proof {
                    match file_rest(b@, next as int) {
                        Some(tail) => {
                            assert(before + (added + tail) =~= (before + added) + tail);
                        },
                        None => {},
                    }
                }
                i = next;
            },
            Err(at) => {
                return Err(failure(file_name, source, at));
            },
        }
    }
    reveal(file_rest);
    reveal(stuck_at);
    assert(node_views(nodes@) + Seq::<Node>::empty() =~= node_views(nodes@));
    Ok(nodes)
}

} // verus!
