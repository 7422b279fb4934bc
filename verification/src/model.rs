//! The mathematical model of syntax trees: what the contracts of the library speak of.
//!
//! Both the concrete tree and the intermediate tree are viewed as sequences of `Node`.
//! Only a concrete tree holds `StructMember` nodes.
use crate::span::ShortSpan;
use vstd::prelude::*;

verus! {

/// The kind of an atomic value.
#[derive(Clone, Copy, Debug, PartialEq, Eq, Structural)]
pub enum AtomicType {
    Blob,
    Boolean,
    Integer,
    Null,
    QuotedString,
    Real,
    Symbol,
    Timestamp,
}

/// An atomic value: its kind, its annotations as written, and its raw text.
pub struct Atom {
    pub typ: AtomicType,
    pub span: ShortSpan,
    pub annotations: Seq<Seq<char>>,
    pub value: Seq<char>,
}

/// A multi-line string: its annotations as written and its raw content.
pub struct LongString {
    pub span: ShortSpan,
    pub annotations: Seq<Seq<char>>,
    pub value: Seq<char>,
}

/// A run of line breaks.
pub struct Breaks {
    pub span: ShortSpan,
    pub count: nat,
}

/// One fragment of a clob.
pub enum ClobPart {
    MultilineString(LongString),
    QuotedString(Atom),
    Newlines(Breaks),
}

/// A list, an s-expression or a struct: annotations and children in source order.
pub struct Compound {
    pub span: ShortSpan,
    pub annotations: Seq<Seq<char>>,
    pub items: Seq<Node>,
}

/// A syntax tree node.
pub enum Node {
    Atomic(Atom),
    Clob { span: ShortSpan, annotations: Seq<Seq<char>>, parts: Seq<ClobPart> },
    CommentBlock { span: ShortSpan, lines: Seq<Seq<char>> },
    CommentLine { span: ShortSpan, text: Seq<char> },
    List(Compound),
    MultilineString(LongString),
    Newlines(Breaks),
    SExpr(Compound),
    Struct(Compound),
    StructKey { span: ShortSpan, text: Seq<char> },
    StructMember { span: ShortSpan, items: Seq<Node> },
}

/// The views of a sequence of strings.
pub open spec fn texts(v: Seq<String>) -> Seq<Seq<char>> {
    v.map_values(|s: String| s@)
}

/// `text` without the quotes around it, if it has both.
pub open spec fn unquoted(text: Seq<char>) -> Seq<char> {
    if text.len() >= 2 && text[0] == '\'' && text.last() == '\'' {
        text.subrange(1, text.len() - 1)
    } else {
        text
    }
}

impl ClobPart {
    pub open spec fn is_newlines(self) -> bool {
        self is Newlines
    }

    /// What the fragment adds to the newline count of its clob: the count of a newline
    /// run, the length in bytes of a multi-line string, nothing for a quoted string.
    pub open spec fn newline_count(self) -> nat {
        match self {
            ClobPart::MultilineString(s) => crate::text::text_width(s.value),
            ClobPart::QuotedString(_) => 0,
            ClobPart::Newlines(b) => b.count,
        }
    }
}

/// Sum of the newline counts of the fragments.
pub open spec fn parts_newline_count(parts: Seq<ClobPart>) -> nat
    decreases parts.len(),
{
    if parts.len() == 0 {
        0
    } else {
        parts_newline_count(parts.drop_last()) + parts.last().newline_count()
    }
}

/// Number of fragments before the first newline run.
pub open spec fn parts_before_newline(parts: Seq<ClobPart>) -> nat
    decreases parts.len(),
{
    if parts.len() == 0 || parts[0].is_newlines() {
        0
    } else {
        1 + parts_before_newline(parts.drop_first())
    }
}

impl Node {
    pub open spec fn is_newlines(self) -> bool {
        self is Newlines
    }

    pub open spec fn is_comment(self) -> bool {
        self is CommentBlock || self is CommentLine
    }

    pub open spec fn is_comment_line(self) -> bool {
        self is CommentLine
    }

    pub open spec fn is_list(self) -> bool {
        self is List
    }

    pub open spec fn is_struct(self) -> bool {
        self is Struct
    }

    pub open spec fn is_struct_key(self) -> bool {
        self is StructKey
    }

    pub open spec fn is_sexpr(self) -> bool {
        self is SExpr
    }

    /// A list, an s-expression or a struct.
    pub open spec fn is_compound(self) -> bool {
        self is List || self is SExpr || self is Struct
    }

    /// The node is an item of its form: neither a comment nor a newline run.
    pub open spec fn is_not_comment_or_newlines(self) -> bool {
        !self.is_newlines() && !self.is_comment()
    }

    /// The node is a value: neither a comment, a newline run nor a struct key.
    pub open spec fn is_value(self) -> bool {
        !self.is_newlines() && !self.is_comment() && !self.is_struct_key()
    }

    /// The node is an atomic value of the kind symbol.
    pub open spec fn is_symbol(self) -> bool {
        self matches Node::Atomic(a) && a.typ == AtomicType::Symbol
    }

    /// The text of a symbol.
    pub open spec fn symbol_text(self) -> Option<Seq<char>> {
        match self {
            Node::Atomic(a) => if a.typ == AtomicType::Symbol {
                Some(a.value)
            } else {
                None
            },
            _ => None,
        }
    }

    /// The text of a symbol without its quotes.
    pub open spec fn stripped_symbol_text(self) -> Option<Seq<char>> {
        match self.symbol_text() {
            Some(text) => Some(unquoted(text)),
            None => None,
        }
    }

    /// The content of a quoted or multi-line string.
    pub open spec fn string_text(self) -> Option<Seq<char>> {
        match self {
            Node::Atomic(a) => if a.typ == AtomicType::QuotedString {
                Some(a.value)
            } else {
                None
            },
            Node::MultilineString(s) => Some(s.value),
            _ => None,
        }
    }

    pub open spec fn span(self) -> ShortSpan {
        match self {
            Node::Atomic(a) => a.span,
            Node::Clob { span, .. } => span,
            Node::CommentBlock { span, .. } => span,
            Node::CommentLine { span, .. } => span,
            Node::List(c) => c.span,
            Node::MultilineString(s) => s.span,
            Node::Newlines(b) => b.span,
            Node::SExpr(c) => c.span,
            Node::Struct(c) => c.span,
            Node::StructKey { span, .. } => span,
            Node::StructMember { span, .. } => span,
        }
    }

    /// The children of a list, an s-expression or a struct; empty for any other node.
    pub open spec fn items(self) -> Seq<Node> {
        match self {
            Node::List(c) => c.items,
            Node::SExpr(c) => c.items,
            Node::Struct(c) => c.items,
            _ => Seq::empty(),
        }
    }

    /// The node can carry annotations.
    pub open spec fn is_annotatable(self) -> bool {
        match self {
            Node::Atomic(_) => true,
            Node::Clob { .. } => true,
            Node::List(_) => true,
            Node::MultilineString(_) => true,
            Node::SExpr(_) => true,
            Node::Struct(_) => true,
            _ => false,
        }
    }

    /// The node with its annotations replaced.
    pub open spec fn with_annotations(self, annotations: Seq<Seq<char>>) -> Node {
        match self {
            Node::Atomic(a) => Node::Atomic(Atom { annotations, ..a }),
            Node::Clob { span, parts, .. } => Node::Clob { span, annotations, parts },
            Node::List(c) => Node::List(Compound { annotations, ..c }),
            Node::MultilineString(s) => Node::MultilineString(LongString { annotations, ..s }),
            Node::SExpr(c) => Node::SExpr(Compound { annotations, ..c }),
            Node::Struct(c) => Node::Struct(Compound { annotations, ..c }),
            other => other,
        }
    }

    /// The node with its children replaced, if it is a list, an s-expression or a struct.
    pub open spec fn with_items(self, items: Seq<Node>) -> Node {
        match self {
            Node::List(c) => Node::List(Compound { items, ..c }),
            Node::SExpr(c) => Node::SExpr(Compound { items, ..c }),
            Node::Struct(c) => Node::Struct(Compound { items, ..c }),
            other => other,
        }
    }

    /// The newline metric of a node: the count of a newline run, 1 for a line comment,
    /// the number of lines of a block comment, the line breaks in a multi-line string, and
    /// for a form that has children the sum over them.
    pub open spec fn newline_count(self) -> nat
        decreases self,
    {
        match self {
            Node::Atomic(_) => 0,
            Node::Clob { parts, .. } => parts_newline_count(parts),
            Node::CommentBlock { lines, .. } => lines.len(),
            Node::CommentLine { .. } => 1,
            Node::List(c) => newline_count(c.items),
            Node::MultilineString(s) => crate::text::line_breaks(s.value),
            Node::Newlines(b) => b.count,
            Node::SExpr(c) => newline_count(c.items),
            Node::Struct(c) => newline_count(c.items),
            Node::StructKey { .. } => 0,
            Node::StructMember { items, .. } => newline_count(items),
        }
    }
}

/// Sum of the newline metrics of `items`.
pub open spec fn newline_count(items: Seq<Node>) -> nat
    decreases items,
{
    if items.len() == 0 {
        0
    } else {
        newline_count(items.drop_last()) + items.last().newline_count()
    }
}

/// Number of items of `items` that satisfy `pred` before the first one that does not and
/// satisfies `until`.
pub open spec fn count_until(
    items: Seq<Node>,
    pred: spec_fn(Node) -> bool,
    until: spec_fn(Node) -> bool,
) -> nat
    decreases items.len(),
{
    if items.len() == 0 {
        0
    } else if pred(items[0]) {
        1 + count_until(items.drop_first(), pred, until)
    } else if until(items[0]) {
        0
    } else {
        count_until(items.drop_first(), pred, until)
    }
}

/// Number of items that are neither comments nor newline runs before the first newline
/// run.
pub open spec fn items_before_newline(items: Seq<Node>) -> nat {
    count_until(items, |n: Node| n.is_not_comment_or_newlines(), |n: Node| n.is_newlines())
}

} // verus!
