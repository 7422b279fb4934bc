//! The spans of a parsed tree: every span lies within the source text, and within the
//! span of the node around it.
use crate::grammar::{
    annotations, atom, block_comment_nodes, clob_rest, expr, file, file_rest, line_comment_nodes,
    list_rest, lob, long_string, member, scalar, sexpr_rest, short_string, skipped, space_nodes,
    span_of, struct_rest, value,
};
use crate::lexer::{
    at, blob_end, block_comment_end, block_end, line_comment_end, long_end, quoted_end, run_end,
    space_end, triple_quote_at, ByteClass,
};
use crate::model::{ClobPart, Node};
use crate::source::text_at;
use crate::span::ShortSpan;
use vstd::prelude::*;

verus! {

/// The span `inner` lies within the positions `lo` and `hi`.
pub open spec fn span_within(inner: ShortSpan, lo: int, hi: int) -> bool {
    lo <= inner.start <= inner.end <= hi
}

/// The span of every fragment lies within the positions `lo` and `hi`.
pub open spec fn parts_within(parts: Seq<ClobPart>, lo: int, hi: int) -> bool {
    forall|i: int|
        0 <= i < parts.len() ==> span_within(
            match #[trigger] parts[i] {
                ClobPart::MultilineString(s) => s.span,
                ClobPart::QuotedString(a) => a.span,
                ClobPart::Newlines(b) => b.span,
            },
            lo,
            hi,
        )
}

/// The span of the node lies within the positions `lo` and `hi`, and the spans of all
/// that the node holds lie within its own span, level by level.
pub open spec fn nested(n: Node, lo: int, hi: int) -> bool
    decreases n,
{
    &&& span_within(n.span(), lo, hi)
    &&& match n {
        Node::List(c) => all_nested(c.items, c.span.start as int, c.span.end as int),
        Node::SExpr(c) => all_nested(c.items, c.span.start as int, c.span.end as int),
        Node::Struct(c) => all_nested(c.items, c.span.start as int, c.span.end as int),
        Node::StructMember { span, items } => all_nested(items, span.start as int, span.end as int),
        Node::Clob { span, parts, .. } => parts_within(parts, span.start as int, span.end as int),
        _ => true,
    }
}

/// Every one of `items` is nested within the positions `lo` and `hi`.
pub open spec fn all_nested(items: Seq<Node>, lo: int, hi: int) -> bool
    decreases items,
{
    forall|i: int| 0 <= i < items.len() ==> nested(#[trigger] items[i], lo, hi)
}

/// Nodes that are nested within two positions are nested within positions further apart.
pub proof fn lemma_widen(items: Seq<Node>, lo: int, hi: int, lower: int, higher: int)
    requires
        all_nested(items, lo, hi),
        lower <= lo,
        hi <= higher,
    ensures
        all_nested(items, lower, higher),
{
    assert forall|i: int| 0 <= i < items.len() implies nested(#[trigger] items[i], lower, higher) by {
        assert(nested(items[i], lo, hi));
    }
}

/// Two sequences of nested nodes make one.
pub proof fn lemma_join(front: Seq<Node>, back: Seq<Node>, lo: int, hi: int)
    requires
        all_nested(front, lo, hi),
        all_nested(back, lo, hi),
    ensures
        all_nested(front + back, lo, hi),
{
    assert forall|i: int| 0 <= i < (front + back).len() implies nested(
        #[trigger] (front + back)[i],
        lo,
        hi,
    ) by {
        if i < front.len() {
            assert((front + back)[i] == front[i]);
        } else {
            assert((front + back)[i] == back[i - front.len()]);
        }
    }
}

/// A run ends between its start and the end of the text.
pub proof fn lemma_run_end(b: Seq<u8>, pos: int, class: ByteClass)
    requires
        0 <= pos <= b.len(),
    ensures
        pos <= run_end(b, pos, class) <= b.len(),
    decreases b.len() - pos,
{
    if pos < b.len() && crate::lexer::in_class(class, b[pos]) {
        lemma_run_end(b, pos + 1, class);
    }
}

/// Quoted text ends within the text.
pub proof fn lemma_quoted_end(b: Seq<u8>, pos: int, quote: u8)
    requires
        0 <= pos,
    ensures
        quoted_end(b, pos, quote) matches Some(e) ==> pos < e <= b.len(),
    decreases b.len() - pos,
{
    if pos < b.len() && b[pos] != 0x0A && b[pos] != quote {
        if b[pos] == 0x5C && pos + 1 < b.len() {
            lemma_quoted_end(b, pos + 2, quote);
        } else {
            lemma_quoted_end(b, pos + 1, quote);
        }
    }
}

/// A long string ends within the text.
pub proof fn lemma_long_end(b: Seq<u8>, pos: int)
    requires
        0 <= pos,
    ensures
        long_end(b, pos) matches Some(e) ==> pos + 3 <= e <= b.len(),
    decreases b.len() - pos,
{
    if pos < b.len() && !triple_quote_at(b, pos) {
        if b[pos] == 0x5C && pos + 1 < b.len() {
            lemma_long_end(b, pos + 2);
        } else {
            lemma_long_end(b, pos + 1);
        }
    }
}

/// A line comment ends within the text.
pub proof fn lemma_line_comment_end(b: Seq<u8>, pos: int)
    requires
        0 <= pos <= b.len(),
    ensures
        line_comment_end(b, pos) matches Some(e) ==> pos + 2 <= e <= b.len(),
{
    if at(b, pos) == 0x2F && at(b, pos + 1) == 0x2F {
        lemma_run_end(b, pos + 2, ByteClass::NotLineFeed);
    }
}

/// A block comment ends within the text.
pub proof fn lemma_block_end(b: Seq<u8>, pos: int)
    requires
        0 <= pos,
    ensures
        block_end(b, pos) matches Some(e) ==> pos + 2 <= e <= b.len(),
    decreases b.len() - pos,
{
    if pos + 1 < b.len() && !(b[pos] == 0x2A && b[pos + 1] == 0x2F) {
        lemma_block_end(b, pos + 1);
    }
}

/// The nodes for what was skipped between two positions are nested between them.
pub proof fn lemma_skipped_nodes(b: Seq<u8>, pos: int, end: int)
    requires
        0 <= pos <= end <= b.len() <= usize::MAX,
    ensures
        space_nodes(b, pos, end) matches Some(nodes) ==> all_nested(nodes, pos, end),
        line_comment_nodes(b, pos, end) matches Some(nodes) ==> all_nested(nodes, pos, end),
        block_comment_nodes(b, pos, end) matches Some(nodes) ==> all_nested(nodes, pos, end),
{
}

/// Whitespace and comments are nested between the position at which they start and the
/// position at which they end.
pub proof fn lemma_skipped(b: Seq<u8>, pos: int)
    requires
        0 <= pos <= b.len() <= usize::MAX,
    ensures
        skipped(b, pos) matches Some((end, nodes)) ==> pos <= end <= b.len() && all_nested(
            nodes,
            pos,
            end,
        ),
    decreases b.len() - pos,
{
    reveal(skipped);
    if pos < b.len() {
        let next = if crate::lexer::is_space(b[pos]) {
            Some(space_end(b, pos))
        } else if at(b, pos) == 0x2F && at(b, pos + 1) == 0x2F {
            line_comment_end(b, pos)
        } else if at(b, pos) == 0x2F && at(b, pos + 1) == 0x2A {
            block_comment_end(b, pos)
        } else {
            None
        };
        match next {
            Some(next) => {
                if pos < next <= b.len() {
                    lemma_skipped_nodes(b, pos, next);
                    lemma_skipped(b, next);
                    let front = if crate::lexer::is_space(b[pos]) {
                        space_nodes(b, pos, next)
                    } else if at(b, pos + 1) == 0x2F {
                        line_comment_nodes(b, pos, next)
                    } else {
                        block_comment_nodes(b, pos, next)
                    };
                    match (front, skipped(b, next)) {
                        (Some(front), Some((end, rest))) => {
                            lemma_widen(front, pos, next, pos, end);
                            lemma_widen(rest, next, end, pos, end);
                            lemma_join(front, rest, pos, end);
                        },
                        _ => {},
                    }
                }
            },
            None => {},
        }
    }
}

/// An atomic value is nested between the positions at which it starts and ends.
pub proof fn lemma_atom(typ: crate::model::AtomicType, b: Seq<u8>, start: int, end: Option<int>)
    requires
        b.len() <= usize::MAX,
    ensures
        atom(typ, b, start, end) matches Some((e, n)) ==> 0 <= start <= e <= b.len() && end
            == Some(e) && nested(n, start, e),
{
}

/// A scalar is nested between the positions at which it starts and ends.
pub proof fn lemma_scalar(b: Seq<u8>, pos: int)
    requires
        b.len() <= usize::MAX,
    ensures
        scalar(b, pos) matches Some((e, n)) ==> 0 <= pos <= e <= b.len() && nested(n, pos, e),
{
    lemma_atom(crate::model::AtomicType::Null, b, pos, crate::lexer::null_end(b, pos));
    lemma_atom(crate::model::AtomicType::Boolean, b, pos, crate::lexer::boolean_end(b, pos));
    lemma_atom(crate::model::AtomicType::Timestamp, b, pos, crate::lexer::timestamp_end(b, pos));
    lemma_atom(crate::model::AtomicType::Real, b, pos, crate::lexer::real_end(b, pos));
    lemma_atom(crate::model::AtomicType::Integer, b, pos, crate::lexer::integer_end(b, pos));
    lemma_atom(crate::model::AtomicType::Symbol, b, pos, crate::lexer::symbol_end(b, pos));
}

/// A string lies between the positions at which it starts and ends.
pub proof fn lemma_strings(b: Seq<u8>, pos: int)
    requires
        0 <= pos <= b.len() <= usize::MAX,
    ensures
        short_string(b, pos) matches Some((e, a)) ==> pos < e <= b.len() && a.span == span_of(
            pos,
            e,
        ),
        long_string(b, pos) matches Some((e, s)) ==> pos < e <= b.len() && s.span == span_of(pos, e),
{
    lemma_quoted_end(b, pos + 1, 0x22);
    lemma_long_end(b, pos + 3);
}

/// The fragments of a clob lie between the position at which they start and the end of
/// the clob.
pub proof fn lemma_clob_rest(b: Seq<u8>, pos: int)
    requires
        0 <= pos <= b.len() <= usize::MAX,
    ensures
        clob_rest(b, pos) matches Some((end, parts)) ==> pos < end <= b.len() && parts_within(
            parts,
            pos,
            end,
        ),
    decreases b.len() - pos,
{
    reveal(clob_rest);
    if pos < b.len() {
        lemma_strings(b, pos);
        let next = if crate::lexer::is_space(b[pos]) {
            Some(space_end(b, pos))
        } else if at(b, pos) == 0x7D && at(b, pos + 1) == 0x7D {
            None
        } else if triple_quote_at(b, pos) {
            match long_string(b, pos) {
                Some((e, _)) => Some(e),
                None => None,
            }
        } else {
            match short_string(b, pos) {
                Some((e, _)) => Some(e),
                None => None,
            }
        };
        match next {
            Some(next) => {
                if pos < next <= b.len() {
                    lemma_clob_rest(b, next);
                    match (clob_rest(b, pos), clob_rest(b, next)) {
                        (Some((end, parts)), Some((_, rest))) => {
                            assert forall|i: int| 0 <= i < parts.len() implies span_within(
                                match #[trigger] parts[i] {
                                    ClobPart::MultilineString(s) => s.span,
                                    ClobPart::QuotedString(a) => a.span,
                                    ClobPart::Newlines(b) => b.span,
                                },
                                pos,
                                end,
                            ) by {
                                if parts.len() == rest.len() {
                                    assert(parts[i] == rest[i]);
                                } else if i > 0 {
                                    assert(parts[i] == rest[i - 1]);
                                }
                            }
                        },
                        _ => {},
                    }
                }
            },
            None => {},
        }
    }
}

/// A blob or a clob is nested between the positions at which it starts and ends.
pub proof fn lemma_lob(b: Seq<u8>, pos: int)
    requires
        0 <= pos,
        pos + 2 <= b.len() <= usize::MAX,
    ensures
        lob(b, pos) matches Some((end, n)) ==> pos < end <= b.len() && nested(n, pos, end),
{
    lemma_atom(crate::model::AtomicType::Blob, b, pos, blob_end(b, pos));
    lemma_run_end(b, pos + 2, ByteClass::BlobText);
    lemma_clob_rest(b, pos + 2);
    match clob_rest(b, pos + 2) {
        Some((end, parts)) => {
            assert forall|i: int| 0 <= i < parts.len() implies span_within(
                match #[trigger] parts[i] {
                    ClobPart::MultilineString(s) => s.span,
                    ClobPart::QuotedString(a) => a.span,
                    ClobPart::Newlines(b) => b.span,
                },
                pos,
                end,
            ) by {
                assert(parts_within(parts, pos + 2, end));
            }
        },
        None => {},
    }
}

/// The children of a compound form that starts at `pos` are nested within its span.
proof fn lemma_compound(
    b: Seq<u8>,
    pos: int,
    start: int,
    end: int,
    lead: Seq<Node>,
    items: Seq<Node>,
)
    requires
        0 <= pos < start <= end <= b.len() <= usize::MAX,
        all_nested(lead, pos + 1, start),
        all_nested(items, start, end),
    ensures
        all_nested(lead + items, span_of(pos, end).start as int, span_of(pos, end).end as int),
{
    lemma_widen(lead, pos + 1, start, pos, end);
    lemma_widen(items, start, end, pos, end);
    lemma_join(lead, items, pos, end);
}

/// A value is nested between the positions at which it starts and ends.
pub proof fn lemma_value(b: Seq<u8>, pos: int)
    requires
        0 <= pos <= b.len() <= usize::MAX,
    ensures
        value(b, pos) matches Some((end, n)) ==> pos <= end <= b.len() && nested(n, pos, end),
    decreases b.len() - pos, 1int,
{
    if pos < b.len() {
        if b[pos] == 0x7B && at(b, pos + 1) == 0x7B {
            lemma_lob(b, pos);
        } else if b[pos] == 0x7B || b[pos] == 0x5B || b[pos] == 0x28 {
            lemma_skipped(b, pos + 1);
            match skipped(b, pos + 1) {
                Some((start, lead)) => {
                    if pos < start <= b.len() {
                        if b[pos] == 0x7B {
                            lemma_struct_rest(b, start);
                            match struct_rest(b, start) {
                                Some((end, items)) => lemma_compound(b, pos, start, end, lead, items),
                                None => {},
                            }
                        } else if b[pos] == 0x5B {
                            lemma_list_rest(b, start);
                            match list_rest(b, start) {
                                Some((end, items)) => lemma_compound(b, pos, start, end, lead, items),
                                None => {},
                            }
                        } else {
                            lemma_sexpr_rest(b, start);
                            match sexpr_rest(b, start) {
                                Some((end, items)) => lemma_compound(b, pos, start, end, lead, items),
                                None => {},
                            }
                        }
                    }
                },
                None => {},
            }
        } else if b[pos] == 0x22 || triple_quote_at(b, pos) {
            lemma_strings(b, pos);
        } else {
            lemma_scalar(b, pos);
        }
    }
}

/// The annotations at a position end between that position and the end of the text.
pub proof fn lemma_annotations(b: Seq<u8>, pos: int)
    requires
        0 <= pos <= b.len(),
    ensures
        annotations(b, pos) matches Some((end, _)) ==> pos <= end <= b.len(),
    decreases b.len() - pos,
{
    reveal(annotations);
    match crate::grammar::annotation_end(b, pos) {
        Some(end) => {
            let next = space_end(b, end);
            if pos < end && end <= next <= b.len() {
                lemma_annotations(b, next);
            }
        },
        None => {},
    }
}

/// An expression is nested between the positions at which it starts and ends.
pub proof fn lemma_expr(b: Seq<u8>, pos: int)
    requires
        0 <= pos <= b.len() <= usize::MAX,
    ensures
        expr(b, pos) matches Some((end, n)) ==> pos <= end <= b.len() && nested(n, pos, end),
    decreases b.len() - pos, 2int,
{
    lemma_annotations(b, pos);
    match annotations(b, pos) {
        Some((start, notes)) => {
            if pos <= start <= b.len() {
                lemma_value(b, start);
                match value(b, start) {
                    Some((end, node)) => {
                        let noted = node.with_annotations(notes);
                        assert(noted.span() == node.span());
                        assert(nested(noted, start, end));
                    },
                    None => {},
                }
            }
        },
        None => {},
    }
}

/// The children of a list are nested between the position at which they start and the
/// end of the list.
pub proof fn lemma_list_rest(b: Seq<u8>, pos: int)
    requires
        0 <= pos <= b.len() <= usize::MAX,
    ensures
        list_rest(b, pos) matches Some((end, nodes)) ==> pos < end <= b.len() && all_nested(
            nodes,
            pos,
            end,
        ),
    decreases b.len() - pos, 3int,
{
    if at(b, pos) != 0x5D {
        lemma_expr(b, pos);
        match expr(b, pos) {
            Some((end, node)) => {
                if pos < end {
                    lemma_skipped(b, end);
                    match skipped(b, end) {
                        Some((next, gap)) => {
                            let head = seq![node] + gap;
                            assert(all_nested(seq![node], pos, next));
                            lemma_widen(gap, end, next, pos, next);
                            lemma_join(seq![node], gap, pos, next);
                            if at(b, next) == 0x5D {
                                lemma_widen(head, pos, next, pos, next + 1);
                            } else if at(b, next) == 0x2C {
                                lemma_skipped(b, next + 1);
                                match skipped(b, next + 1) {
                                    Some((more, gap2)) => {
                                        if pos < more <= b.len() {
                                            lemma_list_rest(b, more);
                                            match list_rest(b, more) {
                                                Some((last, tail)) => {
                                                    lemma_widen(head, pos, next, pos, last);
                                                    lemma_widen(gap2, next + 1, more, pos, last);
                                                    lemma_widen(tail, more, last, pos, last);
                                                    lemma_join(head, gap2, pos, last);
                                                    lemma_join(head + gap2, tail, pos, last);
                                                },
                                                None => {},
                                            }
                                        }
                                    },
                                    None => {},
                                }
                            }
                        },
                        None => {},
                    }
                }
            },
            None => {},
        }
    }
}

/// The children of an s-expression are nested between the position at which they start
/// and the end of the s-expression.
pub proof fn lemma_sexpr_rest(b: Seq<u8>, pos: int)
    requires
        0 <= pos <= b.len() <= usize::MAX,
    ensures
        sexpr_rest(b, pos) matches Some((end, nodes)) ==> pos < end <= b.len() && all_nested(
            nodes,
            pos,
            end,
        ),
    decreases b.len() - pos, 3int,
{
    if at(b, pos) != 0x29 {
        lemma_expr(b, pos);
        match expr(b, pos) {
            Some((end, node)) => {
                if pos < end {
                    lemma_skipped(b, end);
                    match skipped(b, end) {
                        Some((next, gap)) => {
                            if pos < next <= b.len() {
                                lemma_sexpr_rest(b, next);
                                match sexpr_rest(b, next) {
                                    Some((last, tail)) => {
                                        let head = seq![node] + gap;
                                        assert(all_nested(seq![node], pos, last));
                                        lemma_widen(gap, end, next, pos, last);
                                        lemma_join(seq![node], gap, pos, last);
                                        lemma_widen(tail, next, last, pos, last);
                                        lemma_join(head, tail, pos, last);
                                    },
                                    None => {},
                                }
                            }
                        },
                        None => {},
                    }
                }
            },
            None => {},
        }
    }
}

/// A struct member is nested between the positions at which it starts and ends.
pub proof fn lemma_member(b: Seq<u8>, pos: int)
    requires
        0 <= pos <= b.len() <= usize::MAX,
    ensures
        member(b, pos) matches Some((end, n)) ==> pos < end <= b.len() && nested(n, pos, end),
    decreases b.len() - pos, 3int,
{
    match crate::grammar::key_end(b, pos) {
        Some(key_end) => {
            if pos < key_end <= b.len() {
                lemma_skipped(b, key_end);
                match (text_at(b, pos, key_end), skipped(b, key_end)) {
                    (Some(text), Some((colon, gap))) => {
                        if at(b, colon) == 0x3A {
                            lemma_skipped(b, colon + 1);
                            match skipped(b, colon + 1) {
                                Some((start, gap2)) => {
                                    if colon < start <= b.len() {
                                        lemma_expr(b, start);
                                        match expr(b, start) {
                                            Some((end, node)) => {
                                                let key = Node::StructKey {
                                                    span: span_of(pos, key_end),
                                                    text,
                                                };
                                                assert(all_nested(seq![key], pos, end));
                                                assert(all_nested(seq![node], pos, end));
                                                lemma_widen(gap, key_end, colon, pos, end);
                                                lemma_widen(gap2, colon + 1, start, pos, end);
                                                lemma_join(seq![key], gap, pos, end);
                                                lemma_join(seq![key] + gap, gap2, pos, end);
                                                lemma_join(
                                                    seq![key] + gap + gap2,
                                                    seq![node],
                                                    pos,
                                                    end,
                                                );
                                            },
                                            None => {},
                                        }
                                    }
                                },
                                None => {},
                            }
                        }
                    },
                    _ => {},
                }
            }
        },
        None => {},
    }
}

/// The children of a struct are nested between the position at which they start and the
/// end of the struct.
pub proof fn lemma_struct_rest(b: Seq<u8>, pos: int)
    requires
        0 <= pos <= b.len() <= usize::MAX,
    ensures
        struct_rest(b, pos) matches Some((end, nodes)) ==> pos < end <= b.len() && all_nested(
            nodes,
            pos,
            end,
        ),
    decreases b.len() - pos, 4int,
{
    if at(b, pos) != 0x7D {
        lemma_member(b, pos);
        match member(b, pos) {
            Some((end, node)) => {
                if pos < end {
                    lemma_skipped(b, end);
                    match skipped(b, end) {
                        Some((next, gap)) => {
                            let head = seq![node] + gap;
                            assert(all_nested(seq![node], pos, next));
                            lemma_widen(gap, end, next, pos, next);
                            lemma_join(seq![node], gap, pos, next);
                            if at(b, next) == 0x7D {
                                lemma_widen(head, pos, next, pos, next + 1);
                            } else if at(b, next) == 0x2C {
                                lemma_skipped(b, next + 1);
                                match skipped(b, next + 1) {
                                    Some((more, gap2)) => {
                                        if pos < more <= b.len() {
                                            lemma_struct_rest(b, more);
                                            match struct_rest(b, more) {
                                                Some((last, tail)) => {
                                                    lemma_widen(head, pos, next, pos, last);
                                                    lemma_widen(gap2, next + 1, more, pos, last);
                                                    lemma_widen(tail, more, last, pos, last);
                                                    lemma_join(head, gap2, pos, last);
                                                    lemma_join(head + gap2, tail, pos, last);
                                                },
                                                None => {},
                                            }
                                        }
                                    },
                                    None => {},
                                }
                            }
                        },
                        None => {},
                    }
                }
            },
            None => {},
        }
    }
}

/// The expressions from a position to the end of the text are nested between the two.
pub proof fn lemma_file_rest(b: Seq<u8>, pos: int)
    requires
        0 <= pos <= b.len() <= usize::MAX,
    ensures
        file_rest(b, pos) matches Some(nodes) ==> all_nested(nodes, pos, b.len() as int),
    decreases b.len() - pos,
{
    reveal(file_rest);
    if pos < b.len() {
        lemma_expr(b, pos);
        match expr(b, pos) {
            Some((end, node)) => {
                if pos < end {
                    lemma_skipped(b, end);
                    match skipped(b, end) {
                        Some((next, gap)) => {
                            if pos < next <= b.len() {
                                lemma_file_rest(b, next);
                                match file_rest(b, next) {
                                    Some(tail) => {
                                        let last = b.len() as int;
                                        assert(all_nested(seq![node], pos, last));
                                        lemma_widen(gap, end, next, pos, last);
                                        lemma_join(seq![node], gap, pos, last);
                                        lemma_widen(tail, next, last, pos, last);
                                        lemma_join(seq![node] + gap, tail, pos, last);
                                    },
                                    None => {},
                                }
                            }
                        },
                        None => {},
                    }
                }
            },
            None => {},
        }
    }
}

/// In the tree of a source text, every span lies within the text, and the spans of the
/// children of a node lie within the span of the node.
pub proof fn lemma_parsed_spans_nest(b: Seq<u8>)
    requires
        b.len() <= usize::MAX,
    ensures
        file(b) matches Some(tree) ==> all_nested(tree, 0, b.len() as int),
{
    lemma_skipped(b, 0);
    match skipped(b, 0) {
        Some((start, lead)) => {
            lemma_file_rest(b, start);
            match file_rest(b, start) {
                Some(rest) => {
                    lemma_widen(lead, 0, start, 0, b.len() as int);
                    lemma_widen(rest, start, b.len() as int, 0, b.len() as int);
                    lemma_join(lead, rest, 0, b.len() as int);
                },
                None => {},
            }
        },
        None => {},
    }
}

} // verus!
