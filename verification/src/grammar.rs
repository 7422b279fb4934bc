//! The grammar: what tree a source text stands for.
//!
//! Every function takes the bytes of the source and a position, and gives the position
//! after what it matched together with the nodes that it stands for, or `None` where the
//! text does not match.
use crate::lexer::{
    at, blob_end, block_comment_end, boolean_end, ident_end, integer_end, is_space,
    line_comment_end, long_string_end, null_end, quoted_symbol_end, real_end, short_string_end,
    space_end, symbol_end, timestamp_end, triple_quote_at,
};
use crate::model::{Atom, AtomicType, Breaks, ClobPart, Compound, LongString, Node};
use crate::source::text_at;
use crate::span::ShortSpan;
use crate::text::{line_breaks, lines, trim, trim_end};
use vstd::prelude::*;

verus! {

/// The span from `start` to `end`.
pub open spec fn span_of(start: int, end: int) -> ShortSpan {
    ShortSpan { start: start as usize, end: end as usize }
}

/// One line of a block comment as the tree holds it: trimmed, and without a `*` at its
/// start and one space after that.
pub open spec fn comment_line(line: Seq<char>) -> Seq<char> {
    let t = trim(line);
    if t.len() > 0 && t[0] == '*' {
        let rest = t.drop_first();
        if rest.len() > 0 && rest[0] == ' ' {
            rest.drop_first()
        } else {
            rest
        }
    } else {
        t
    }
}

/// The lines of the block comment `comment`, which starts with `/*` and ends with `*/`.
pub open spec fn block_lines(comment: Seq<char>) -> Seq<Seq<char>> {
    let body = if comment.len() >= 4 {
        comment.subrange(2, comment.len() - 2)
    } else {
        Seq::empty()
    };
    lines(body).map_values(|line: Seq<char>| comment_line(line))
}

/// The number of line breaks as a newline run holds it.
pub open spec fn run_count(breaks: nat) -> nat {
    breaks % 0x10000
}

/// The node for the whitespace from `start` to `end`: a newline run if it holds a line
/// break, nothing if not.
pub open spec fn space_nodes(b: Seq<u8>, start: int, end: int) -> Option<Seq<Node>> {
    match text_at(b, start, end) {
        Some(text) => if line_breaks(text) > 0 {
            Some(
                seq![
                    Node::Newlines(
                        Breaks { span: span_of(start, end), count: run_count(line_breaks(text)) },
                    ),
                ],
            )
        } else {
            Some(Seq::empty())
        },
        None => None,
    }
}

/// The nodes for the line comment from `start` to `end`: the comment without the
/// whitespace at its end, and a run of one newline.
pub open spec fn line_comment_nodes(b: Seq<u8>, start: int, end: int) -> Option<Seq<Node>> {
    match text_at(b, start, end) {
        Some(text) => Some(
            seq![
                Node::CommentLine { span: span_of(start, end), text: trim_end(text) },
                Node::Newlines(Breaks { span: span_of(start, end), count: 1 }),
            ],
        ),
        None => None,
    }
}

/// The node for the block comment from `start` to `end`.
pub open spec fn block_comment_nodes(b: Seq<u8>, start: int, end: int) -> Option<Seq<Node>> {
    match text_at(b, start, end) {
        Some(text) => Some(
            seq![Node::CommentBlock { span: span_of(start, end), lines: block_lines(text) }],
        ),
        None => None,
    }
}

/// `front` followed by what `rest` gives.
pub open spec fn after(front: Seq<Node>, rest: Option<(int, Seq<Node>)>) -> Option<
    (int, Seq<Node>),
> {
    match rest {
        Some((end, nodes)) => Some((end, front + nodes)),
        None => None,
    }
}

/// `front` followed by what `rest` gives, if there is a front.
pub open spec fn then(front: Option<Seq<Node>>, rest: Option<(int, Seq<Node>)>) -> Option<
    (int, Seq<Node>),
> {
    match front {
        Some(nodes) => after(nodes, rest),
        None => None,
    }
}

/// Whitespace and comments at `pos`, as far as they go.
#[verifier::opaque]
pub open spec fn skipped(b: Seq<u8>, pos: int) -> Option<(int, Seq<Node>)>
    decreases b.len() - pos,
{
    if pos < 0 || pos >= b.len() {
        Some((pos, Seq::empty()))
    } else if is_space(b[pos]) {
        let end = space_end(b, pos);
        if end <= pos || end > b.len() {
            None
        } else {
            then(space_nodes(b, pos, end), skipped(b, end))
        }
    } else if at(b, pos) == 0x2F && at(b, pos + 1) == 0x2F {
        match line_comment_end(b, pos) {
            Some(end) => if end <= pos || end > b.len() {
                None
            } else {
                then(line_comment_nodes(b, pos, end), skipped(b, end))
            },
            None => None,
        }
    } else if at(b, pos) == 0x2F && at(b, pos + 1) == 0x2A {
        match block_comment_end(b, pos) {
            Some(end) => if end <= pos || end > b.len() {
                None
            } else {
                then(block_comment_nodes(b, pos, end), skipped(b, end))
            },
            None => None,
        }
    } else {
        Some((pos, Seq::empty()))
    }
}

/// The atomic value of kind `typ` whose text reaches from `start` to `end`.
pub open spec fn atom(typ: AtomicType, b: Seq<u8>, start: int, end: Option<int>) -> Option<
    (int, Node),
> {
    match end {
        Some(e) => match text_at(b, start, e) {
            Some(value) => Some(
                (
                    e,
                    Node::Atomic(
                        Atom { typ, span: span_of(start, e), annotations: Seq::empty(), value },
                    ),
                ),
            ),
            None => None,
        },
        None => None,
    }
}

/// The null, boolean, timestamp, number or symbol at `pos`, tried in this order.
pub open spec fn scalar(b: Seq<u8>, pos: int) -> Option<(int, Node)> {
    if null_end(b, pos) is Some {
        atom(AtomicType::Null, b, pos, null_end(b, pos))
    } else if boolean_end(b, pos) is Some {
        atom(AtomicType::Boolean, b, pos, boolean_end(b, pos))
    } else if timestamp_end(b, pos) is Some {
        atom(AtomicType::Timestamp, b, pos, timestamp_end(b, pos))
    } else if real_end(b, pos) is Some {
        atom(AtomicType::Real, b, pos, real_end(b, pos))
    } else if integer_end(b, pos) is Some {
        atom(AtomicType::Integer, b, pos, integer_end(b, pos))
    } else {
        atom(AtomicType::Symbol, b, pos, symbol_end(b, pos))
    }
}

/// The short string at `pos`: its value is the text between the quotes.
pub open spec fn short_string(b: Seq<u8>, pos: int) -> Option<(int, Atom)> {
    match short_string_end(b, pos) {
        Some(e) => match text_at(b, pos + 1, e - 1) {
            Some(value) => Some(
                (
                    e,
                    Atom {
                        typ: AtomicType::QuotedString,
                        span: span_of(pos, e),
                        annotations: Seq::empty(),
                        value,
                    },
                ),
            ),
            None => None,
        },
        None => None,
    }
}

/// The long string at `pos`: its value is the text between the triple quotes.
pub open spec fn long_string(b: Seq<u8>, pos: int) -> Option<(int, LongString)> {
    match long_string_end(b, pos) {
        Some(e) => match text_at(b, pos + 3, e - 3) {
            Some(value) => Some(
                (e, LongString { span: span_of(pos, e), annotations: Seq::empty(), value }),
            ),
            None => None,
        },
        None => None,
    }
}

/// End of the annotation at `pos`: a quoted symbol or an identifier, whitespace if any,
/// and `::`.
pub open spec fn annotation_end(b: Seq<u8>, pos: int) -> Option<int> {
    let name = match quoted_symbol_end(b, pos) {
        Some(e) => Some(e),
        None => ident_end(b, pos),
    };
    match name {
        Some(e) => {
            let colons = space_end(b, e);
            if at(b, colons) == 0x3A && at(b, colons + 1) == 0x3A {
                Some(colons + 2)
            } else {
                None
            }
        },
        None => None,
    }
}

/// The annotations at `pos`, each as written with its `::`, and the position after them
/// and the whitespace that follows.
#[verifier::opaque]
pub open spec fn annotations(b: Seq<u8>, pos: int) -> Option<(int, Seq<Seq<char>>)>
    decreases b.len() - pos,
{
    match annotation_end(b, pos) {
        Some(end) => {
            let next = space_end(b, end);
            if end <= pos || next < end || next > b.len() {
                None
            } else {
                match (text_at(b, pos, end), annotations(b, next)) {
                    (Some(text), Some((last, rest))) => Some((last, seq![text] + rest)),
                    _ => None,
                }
            }
        },
        None => Some((pos, Seq::empty())),
    }
}

/// The fragments of a clob from `pos` up to and with its closing `}}`: short strings,
/// long strings and whitespace.
#[verifier::opaque]
pub open spec fn clob_rest(b: Seq<u8>, pos: int) -> Option<(int, Seq<ClobPart>)>
    decreases b.len() - pos,
{
    if pos < 0 || pos >= b.len() {
        None
    } else if is_space(b[pos]) {
        let end = space_end(b, pos);
        match text_at(b, pos, end) {
            Some(text) => if end <= pos || end > b.len() {
                None
            } else {
                match clob_rest(b, end) {
                    Some((last, rest)) => Some(
                        (
                            last,
                            if line_breaks(text) > 0 {
                                seq![
                                    ClobPart::Newlines(
                                        Breaks {
                                            span: span_of(pos, end),
                                            count: run_count(line_breaks(text)),
                                        },
                                    ),
                                ] + rest
                            } else {
                                rest
                            },
                        ),
                    ),
                    None => None,
                }
            },
            None => None,
        }
    } else if at(b, pos) == 0x7D && at(b, pos + 1) == 0x7D {
        Some((pos + 2, Seq::empty()))
    } else if triple_quote_at(b, pos) {
        match long_string(b, pos) {
            Some((end, s)) => if end <= pos || end > b.len() {
                None
            } else {
                match clob_rest(b, end) {
                    Some((last, rest)) => Some((last, seq![ClobPart::MultilineString(s)] + rest)),
                    None => None,
                }
            },
            None => None,
        }
    } else {
        match short_string(b, pos) {
            Some((end, a)) => if end <= pos || end > b.len() {
                None
            } else {
                match clob_rest(b, end) {
                    Some((last, rest)) => Some((last, seq![ClobPart::QuotedString(a)] + rest)),
                    None => None,
                }
            },
            None => None,
        }
    }
}

/// The blob or clob at `pos`. A blob is an atomic value whose text is the whole blob.
pub open spec fn lob(b: Seq<u8>, pos: int) -> Option<(int, Node)> {
    if blob_end(b, pos) is Some {
        atom(AtomicType::Blob, b, pos, blob_end(b, pos))
    } else {
        match clob_rest(b, pos + 2) {
            Some((end, parts)) => Some(
                (end, Node::Clob { span: span_of(pos, end), annotations: Seq::empty(), parts }),
            ),
            None => None,
        }
    }
}

/// End of the key of a struct member at `pos`: a quoted symbol, an identifier or a
/// short string.
pub open spec fn key_end(b: Seq<u8>, pos: int) -> Option<int> {
    match quoted_symbol_end(b, pos) {
        Some(e) => Some(e),
        None => match ident_end(b, pos) {
            Some(e) => Some(e),
            None => short_string_end(b, pos),
        },
    }
}

/// The value at `pos`, without annotations.
pub open spec fn value(b: Seq<u8>, pos: int) -> Option<(int, Node)>
    decreases b.len() - pos, 1int,
{
    if pos < 0 || pos >= b.len() {
        None
    } else if b[pos] == 0x7B && at(b, pos + 1) == 0x7B {
        lob(b, pos)
    } else if b[pos] == 0x7B {
        match skipped(b, pos + 1) {
            Some((start, lead)) => if start <= pos || start > b.len() {
                None
            } else {
                match struct_rest(b, start) {
                    Some((end, items)) => Some(
                        (
                            end,
                            Node::Struct(
                                Compound {
                                    span: span_of(pos, end),
                                    annotations: Seq::empty(),
                                    items: lead + items,
                                },
                            ),
                        ),
                    ),
                    None => None,
                }
            },
            None => None,
        }
    } else if b[pos] == 0x5B {
        match skipped(b, pos + 1) {
            Some((start, lead)) => if start <= pos || start > b.len() {
                None
            } else {
                match list_rest(b, start) {
                    Some((end, items)) => Some(
                        (
                            end,
                            Node::List(
                                Compound {
                                    span: span_of(pos, end),
                                    annotations: Seq::empty(),
                                    items: lead + items,
                                },
                            ),
                        ),
                    ),
                    None => None,
                }
            },
            None => None,
        }
    } else if b[pos] == 0x28 {
        match skipped(b, pos + 1) {
            Some((start, lead)) => if start <= pos || start > b.len() {
                None
            } else {
                match sexpr_rest(b, start) {
                    Some((end, items)) => Some(
                        (
                            end,
                            Node::SExpr(
                                Compound {
                                    span: span_of(pos, end),
                                    annotations: Seq::empty(),
                                    items: lead + items,
                                },
                            ),
                        ),
                    ),
                    None => None,
                }
            },
            None => None,
        }
    } else if b[pos] == 0x22 {
        match short_string(b, pos) {
            Some((end, a)) => Some((end, Node::Atomic(a))),
            None => None,
        }
    } else if triple_quote_at(b, pos) {
        match long_string(b, pos) {
            Some((end, s)) => Some((end, Node::MultilineString(s))),
            None => None,
        }
    } else {
        scalar(b, pos)
    }
}

/// The expression at `pos`: annotations if any, and a value that carries them.
pub open spec fn expr(b: Seq<u8>, pos: int) -> Option<(int, Node)>
    decreases b.len() - pos, 2int,
{
    match annotations(b, pos) {
        Some((start, notes)) => if start < pos || start > b.len() {
            None
        } else {
            match value(b, start) {
                Some((end, node)) => Some((end, node.with_annotations(notes))),
                None => None,
            }
        },
        None => None,
    }
}

/// The children of a list from `pos` up to and with its closing bracket: expressions
/// with a comma between them and after the last if wanted, whitespace and comments
/// anywhere.
pub open spec fn list_rest(b: Seq<u8>, pos: int) -> Option<(int, Seq<Node>)>
    decreases b.len() - pos, 3int,
{
    if at(b, pos) == 0x5D {
        Some((pos + 1, Seq::empty()))
    } else {
        match expr(b, pos) {
            Some((end, node)) => if end <= pos {
                None
            } else {
                match skipped(b, end) {
                    Some((next, gap)) => if at(b, next) == 0x5D {
                        Some((next + 1, seq![node] + gap))
                    } else if at(b, next) == 0x2C {
                        match skipped(b, next + 1) {
                            Some((more, gap2)) => if more <= pos || more > b.len() {
                                None
                            } else {
                                after(seq![node] + gap + gap2, list_rest(b, more))
                            },
                            None => None,
                        }
                    } else {
                        None
                    },
                    None => None,
                }
            },
            None => None,
        }
    }
}

/// The children of an s-expression from `pos` up to and with its closing parenthesis.
pub open spec fn sexpr_rest(b: Seq<u8>, pos: int) -> Option<(int, Seq<Node>)>
    decreases b.len() - pos, 3int,
{
    if at(b, pos) == 0x29 {
        Some((pos + 1, Seq::empty()))
    } else {
        match expr(b, pos) {
            Some((end, node)) => if end <= pos {
                None
            } else {
                match skipped(b, end) {
                    Some((next, gap)) => if next <= pos || next > b.len() {
                        None
                    } else {
                        after(seq![node] + gap, sexpr_rest(b, next))
                    },
                    None => None,
                }
            },
            None => None,
        }
    }
}

/// The member of a struct at `pos`: a key, a colon and an expression, with whitespace
/// and comments between them. The member holds the key, what stands between, and the
/// expression.
pub open spec fn member(b: Seq<u8>, pos: int) -> Option<(int, Node)>
    decreases b.len() - pos, 3int,
{
    match key_end(b, pos) {
        Some(key_end) => match (text_at(b, pos, key_end), skipped(b, key_end)) {
            (Some(text), Some((colon, gap))) => if key_end <= pos || colon < key_end || at(
                b,
                colon,
            ) != 0x3A {
                None
            } else {
                match skipped(b, colon + 1) {
                    Some((start, gap2)) => if start <= colon || start > b.len() {
                        None
                    } else {
                        match expr(b, start) {
                            Some((end, node)) => Some(
                                (
                                    end,
                                    Node::StructMember {
                                        span: span_of(pos, end),
                                        items: seq![
                                            Node::StructKey { span: span_of(pos, key_end), text },
                                        ] + gap + gap2 + seq![node],
                                    },
                                ),
                            ),
                            None => None,
                        }
                    },
                    None => None,
                }
            },
            _ => None,
        },
        None => None,
    }
}

/// The children of a struct from `pos` up to and with its closing brace: members with a
/// comma between them and after the last if wanted, whitespace and comments anywhere.
pub open spec fn struct_rest(b: Seq<u8>, pos: int) -> Option<(int, Seq<Node>)>
    decreases b.len() - pos, 4int,
{
    if at(b, pos) == 0x7D {
        Some((pos + 1, Seq::empty()))
    } else {
        match member(b, pos) {
            Some((end, node)) => if end <= pos {
                None
            } else {
                match skipped(b, end) {
                    Some((next, gap)) => if at(b, next) == 0x7D {
                        Some((next + 1, seq![node] + gap))
                    } else if at(b, next) == 0x2C {
                        match skipped(b, next + 1) {
                            Some((more, gap2)) => if more <= pos || more > b.len() {
                                None
                            } else {
                                after(seq![node] + gap + gap2, struct_rest(b, more))
                            },
                            None => None,
                        }
                    } else {
                        None
                    },
                    None => None,
                }
            },
            None => None,
        }
    }
}

/// The expressions from `pos` to the end of the text, with the whitespace and comments
/// after each.
#[verifier::opaque]
pub open spec fn file_rest(b: Seq<u8>, pos: int) -> Option<Seq<Node>>
    decreases b.len() - pos,
{
    if pos >= b.len() {
        Some(Seq::empty())
    } else {
        match expr(b, pos) {
            Some((end, node)) => if end <= pos {
                None
            } else {
                match skipped(b, end) {
                    Some((next, gap)) => if next <= pos || next > b.len() {
                        None
                    } else {
                        match file_rest(b, next) {
                            Some(rest) => Some(seq![node] + gap + rest),
                            None => None,
                        }
                    },
                    None => None,
                }
            },
            None => None,
        }
    }
}

/// The tree that the source text `b` stands for: whitespace and comments, then
/// expressions up to the end of the text.
pub open spec fn file(b: Seq<u8>) -> Option<Seq<Node>> {
    match skipped(b, 0) {
        Some((start, lead)) => match file_rest(b, start) {
            Some(rest) => Some(lead + rest),
            None => None,
        },
        None => None,
    }
}


/// The position at which parsing the expressions from `pos` on stops short of the end
/// of the text: the start of the first expression that does not match, or the end of an
/// expression after which a comment does not end.
#[verifier::opaque]
pub open spec fn stuck_at(b: Seq<u8>, pos: int) -> int
    decreases b.len() - pos,
{
    if pos >= b.len() {
        pos
    } else {
        match expr(b, pos) {
            Some((end, _)) => if end <= pos || end > b.len() {
                pos
            } else {
                match skipped(b, end) {
                    Some((next, _)) => if next <= pos || next > b.len() {
                        end
                    } else {
                        stuck_at(b, next)
                    },
                    None => end,
                }
            },
            None => pos,
        }
    }
}

/// The position that the error for a text that does not parse points at.
pub open spec fn failure_position(b: Seq<u8>) -> int {
    match skipped(b, 0) {
        Some((start, _)) => stuck_at(b, start),
        None => 0,
    }
}

/// End of the last of the annotations at `pos`, of which there is at least one.
#[verifier::opaque]
pub open spec fn annotations_end(b: Seq<u8>, pos: int) -> Option<int>
    decreases b.len() - pos,
{
    match annotation_end(b, pos) {
        Some(end) => {
            let next = space_end(b, end);
            if end <= pos || next < end || next > b.len() {
                None
            } else {
                match annotations_end(b, next) {
                    Some(last) => Some(last),
                    None => Some(end),
                }
            }
        },
        None => None,
    }
}

/// The end of a match, without what was matched.
pub open spec fn end_of<T>(r: Option<(int, T)>) -> Option<int> {
    match r {
        Some((end, _)) => Some(end),
        None => None,
    }
}

} // verus!
