//! The concrete syntax tree.
use crate::model::{
    items_before_newline, newline_count, parts_before_newline, parts_newline_count, texts, Atom,
    AtomicType, Breaks, ClobPart, Compound, LongString, Node,
};
use crate::span::ShortSpan;
use crate::string_util::count_newlines;
use crate::text::line_breaks;
use vstd::prelude::*;

verus! {

/// A span and a text, for nodes that carry no annotations.
#[derive(Debug)]
pub struct NonAnnotatedStringData {
    pub span: ShortSpan,
    pub value: String,
}

/// A span and lines of text, for nodes that carry no annotations.
#[derive(Debug)]
pub struct NonAnnotatedStringListData {
    pub span: ShortSpan,
    pub value: Vec<String>,
}

/// A multi-line string: annotations and the raw content between the triple quotes.
#[derive(Debug)]
pub struct MultilineStringData {
    pub span: ShortSpan,
    pub annotations: Vec<String>,
    pub value: String,
}

/// A run of line breaks, with the number of line breaks in it.
#[derive(Clone, Copy, Debug)]
pub struct NewlinesData {
    pub span: ShortSpan,
    pub newline_count: u16,
}

/// An atomic value: its kind, its annotations as written, and its raw text.
#[derive(Debug)]
pub struct AtomicData {
    pub typ: AtomicType,
    pub span: ShortSpan,
    pub annotations: Vec<String>,
    pub value: String,
}

/// One fragment of a clob.
#[derive(Debug)]
pub enum ClobExpr {
    MultilineString(MultilineStringData),
    QuotedString(AtomicData),
    Newlines(NewlinesData),
}

/// A clob: annotations and fragments in source order.
#[derive(Debug)]
pub struct ClobData {
    pub span: ShortSpan,
    pub annotations: Vec<String>,
    pub clobs: Vec<ClobExpr>,
}

/// A list, an s-expression or a struct: annotations and children in source order.
#[derive(Debug)]
pub struct ListData {
    pub span: ShortSpan,
    pub annotations: Vec<String>,
    pub items: Vec<Expr>,
}

/// The key of a struct member with what follows it up to the next key: comments,
/// newline runs and the value.
#[derive(Debug)]
pub struct StructMemberData {
    pub span: ShortSpan,
    pub items: Vec<Expr>,
}

/// A node of the concrete syntax tree. Whitespace that holds a line break and comments
/// are nodes like any other; the members of a struct are grouped in `StructMember` nodes.
#[derive(Debug)]
pub enum Expr {
    Atomic(AtomicData),
    Clob(ClobData),
    CommentBlock(NonAnnotatedStringListData),
    CommentLine(NonAnnotatedStringData),
    List(ListData),
    MultilineString(MultilineStringData),
    Newlines(NewlinesData),
    SExpr(ListData),
    Struct(ListData),
    StructKey(NonAnnotatedStringData),
    StructMember(StructMemberData),
}

/// The newline metric of a node or of a sequence of nodes.
pub trait CountNewlines {
    /// The metric as a number without bound.
    spec fn newlines(&self) -> nat;

    /// The metric, capped at the largest `usize`.
    fn count_newlines(&self) -> (n: usize)
        ensures
            n == capped(self.newlines()),
    ;
}

/// The number of items that stand before the first newline run.
pub trait CountItemsBeforeNewline {
    /// The number as the contracts see it.
    spec fn items_before_newline(&self) -> nat;

    fn count_items_before_newline(&self) -> (n: usize)
        ensures
            n == self.items_before_newline(),
    ;
}

/// Counting with two tests: one that says what counts, one that says where to stop.
pub trait CountUntilPred<P, U> where P: Fn(&Expr) -> bool, U: Fn(&Expr) -> bool {
    /// The number of items that `pred` accepts before the first item that `pred` does
    /// not accept and `until` does.
    fn count_until(&self, pred: P, until: U) -> (n: usize)
        requires
            decides(pred),
            decides(until),
        ensures
            n == counted(self.counted_items(), pred, until),
    ;

    /// The items that are counted.
    spec fn counted_items(&self) -> Seq<Expr>;
}

/// `test` can be called on every node and gives one answer for each.
pub open spec fn decides<F: Fn(&Expr) -> bool>(test: F) -> bool {
    forall|e: &Expr|
        #![trigger call_requires(test, (e,))]
        call_requires(test, (e,)) && !(call_ensures(test, (e,), true) && call_ensures(
            test,
            (e,),
            false,
        ))
}

/// The number of `items` that `pred` accepts before the first one that `pred` does not
/// accept and `until` does.
pub open spec fn counted<P: Fn(&Expr) -> bool, U: Fn(&Expr) -> bool>(
    items: Seq<Expr>,
    pred: P,
    until: U,
) -> nat
    decreases items.len(),
{
    if items.len() == 0 {
        0
    } else if call_ensures(pred, (&items[0],), true) {
        1 + counted(items.drop_first(), pred, until)
    } else if call_ensures(until, (&items[0],), true) {
        0
    } else {
        counted(items.drop_first(), pred, until)
    }
}

impl View for MultilineStringData {
    type V = LongString;

    open spec fn view(&self) -> LongString {
        LongString { span: self.span, annotations: texts(self.annotations@), value: self.value@ }
    }
}

impl View for NewlinesData {
    type V = Breaks;

    open spec fn view(&self) -> Breaks {
        Breaks { span: self.span, count: self.newline_count as nat }
    }
}

impl View for AtomicData {
    type V = Atom;

    open spec fn view(&self) -> Atom {
        Atom {
            typ: self.typ,
            span: self.span,
            annotations: texts(self.annotations@),
            value: self.value@,
        }
    }
}

impl View for ClobExpr {
    type V = ClobPart;

    open spec fn view(&self) -> ClobPart {
        match self {
            ClobExpr::MultilineString(d) => ClobPart::MultilineString(d@),
            ClobExpr::QuotedString(d) => ClobPart::QuotedString(d@),
            ClobExpr::Newlines(d) => ClobPart::Newlines(d@),
        }
    }
}

/// The views of the fragments of a clob.
pub open spec fn part_views(clobs: Seq<ClobExpr>) -> Seq<ClobPart> {
    clobs.map_values(|c: ClobExpr| c@)
}

/// The views of a sequence of nodes.
pub open spec fn node_views(items: Seq<Expr>) -> Seq<Node>
    decreases items,
{
    Seq::new(
        items.len(),
        |i: int|
            if 0 <= i < items.len() {
                items[i]@
            } else {
                arbitrary()
            },
    )
}

/// What `node_views` holds, position by position.
pub broadcast proof fn lemma_node_views(items: Seq<Expr>)
    ensures
        #![trigger node_views(items)]
        node_views(items).len() == items.len(),
        forall|i: int| 0 <= i < items.len() ==> (#[trigger] node_views(items)[i]) == items[i]@,
{
    reveal_with_fuel(node_views, 2);
}

impl View for ListData {
    type V = Compound;

    open spec fn view(&self) -> Compound
        decreases self,
    {
        Compound {
            span: self.span,
            annotations: texts(self.annotations@),
            items: node_views(self.items@),
        }
    }
}

impl View for Expr {
    type V = Node;

    open spec fn view(&self) -> Node
        decreases self,
    {
        match self {
            Expr::Atomic(d) => Node::Atomic(d@),
            Expr::Clob(d) => Node::Clob {
                span: d.span,
                annotations: texts(d.annotations@),
                parts: part_views(d.clobs@),
            },
            Expr::CommentBlock(d) => Node::CommentBlock { span: d.span, lines: texts(d.value@) },
            Expr::CommentLine(d) => Node::CommentLine { span: d.span, text: d.value@ },
            Expr::List(d) => Node::List(d@),
            Expr::MultilineString(d) => Node::MultilineString(d@),
            Expr::Newlines(d) => Node::Newlines(d@),
            Expr::SExpr(d) => Node::SExpr(d@),
            Expr::Struct(d) => Node::Struct(d@),
            Expr::StructKey(d) => Node::StructKey { span: d.span, text: d.value@ },
            Expr::StructMember(d) => Node::StructMember {
                span: d.span,
                items: node_views(d.items@),
            },
        }
    }
}

/// `n`, or the largest `usize` if `n` is larger.
pub open spec fn capped(n: nat) -> usize {
    if n <= usize::MAX {
        n as usize
    } else {
        usize::MAX
    }
}

/// The sum of `a` and `b`, or the largest `usize` if the sum is larger.
pub fn add_capped(a: usize, b: usize) -> (sum: usize)
    ensures
        sum == capped((a + b) as nat),
{
    if a > usize::MAX - b {
        usize::MAX
    } else {
        a + b
    }
}

/// A copy of `v`.
pub fn copy_strings(v: &Vec<String>) -> (out: Vec<String>)
    ensures
        texts(out@) == texts(v@),
{
    let mut out: Vec<String> = Vec::new();
    let mut i: usize = 0;
    while i < v.len()
        invariant
            i <= v.len(),
            out.len() == i,
            forall|j: int| 0 <= j < i ==> out[j]@ == v[j]@,
        decreases v.len() - i,
    {
        out.push(v[i].clone());
        i += 1;
    }
    assert(texts(out@) =~= texts(v@));
    out
}

impl NonAnnotatedStringData {
    pub fn new(span: ShortSpan, value: String) -> (data: Self)
        ensures
            data.span == span,
            data.value@ == value@,
    {
        NonAnnotatedStringData { span, value }
    }
}

impl Clone for NonAnnotatedStringData {
    fn clone(&self) -> (out: Self)
        ensures
            out.span == self.span,
            out.value@ == self.value@,
    {
        NonAnnotatedStringData { span: self.span, value: self.value.clone() }
    }
}

impl NonAnnotatedStringListData {
    pub fn new(span: ShortSpan, value: Vec<String>) -> (data: Self)
        ensures
            data.span == span,
            data.value@ == value@,
    {
        NonAnnotatedStringListData { span, value }
    }
}

impl Clone for NonAnnotatedStringListData {
    fn clone(&self) -> (out: Self)
        ensures
            out.span == self.span,
            texts(out.value@) == texts(self.value@),
    {
        NonAnnotatedStringListData { span: self.span, value: copy_strings(&self.value) }
    }
}

impl MultilineStringData {
    pub fn new(span: ShortSpan, annotations: Vec<String>, value: String) -> (data: Self)
        ensures
            data.span == span,
            data.annotations@ == annotations@,
            data.value@ == value@,
    {
        MultilineStringData { span, annotations, value }
    }

}

impl CountNewlines for MultilineStringData {
    /// The line breaks in the content.
    open spec fn newlines(&self) -> nat {
        line_breaks(self.value@)
    }

    fn count_newlines(&self) -> (n: usize) {
        count_newlines(self.value.as_str())
    }
}

impl Clone for MultilineStringData {
    fn clone(&self) -> (out: Self)
        ensures
            out@ == self@,
    {
        MultilineStringData {
            span: self.span,
            annotations: copy_strings(&self.annotations),
            value: self.value.clone(),
        }
    }
}

impl NewlinesData {
    pub fn new(span: ShortSpan, newline_count: u16) -> (data: Self)
        ensures
            data.span == span,
            data.newline_count == newline_count,
    {
        NewlinesData { span, newline_count }
    }
}

impl AtomicData {
    pub fn new(typ: AtomicType, span: ShortSpan, annotations: Vec<String>, value: String) -> (data:
        Self)
        ensures
            data.typ == typ,
            data.span == span,
            data.annotations@ == annotations@,
            data.value@ == value@,
    {
        AtomicData { typ, span, annotations, value }
    }
}

impl Clone for AtomicData {
    fn clone(&self) -> (out: Self)
        ensures
            out@ == self@,
    {
        AtomicData {
            typ: self.typ,
            span: self.span,
            annotations: copy_strings(&self.annotations),
            value: self.value.clone(),
        }
    }
}

impl ClobExpr {
    pub fn is_newlines(&self) -> (b: bool)
        ensures
            b == self@.is_newlines(),
    {
        match self {
            ClobExpr::Newlines(_) => true,
            _ => false,
        }
    }
}

impl Clone for ClobExpr {
    fn clone(&self) -> (out: Self)
        ensures
            out@ == self@,
    {
        match self {
            ClobExpr::MultilineString(d) => ClobExpr::MultilineString(d.clone()),
            ClobExpr::QuotedString(d) => ClobExpr::QuotedString(d.clone()),
            ClobExpr::Newlines(d) => ClobExpr::Newlines(*d),
        }
    }
}

/// A copy of `clobs`.
pub fn copy_clobs(clobs: &Vec<ClobExpr>) -> (out: Vec<ClobExpr>)
    ensures
        part_views(out@) == part_views(clobs@),
{
    let mut out: Vec<ClobExpr> = Vec::new();
    let mut i: usize = 0;
    while i < clobs.len()
        invariant
            i <= clobs.len(),
            out.len() == i,
            forall|j: int| 0 <= j < i ==> out[j]@ == clobs[j]@,
        decreases clobs.len() - i,
    {
        out.push(clobs[i].clone());
        i += 1;
    }
    assert(part_views(out@) =~= part_views(clobs@));
    out
}

/// Number of fragments before the first newline run.
pub fn count_clobs_before_newline(clobs: &Vec<ClobExpr>) -> (n: usize)
    ensures
        n == parts_before_newline(part_views(clobs@)),
{
    let mut i: usize = 0;
    let ghost parts = part_views(clobs@);
    assert(parts.skip(0) =~= parts);
    while i < clobs.len() && !clobs[i].is_newlines()
        invariant
            i <= clobs.len(),
            parts == part_views(clobs@),
            parts_before_newline(parts) == i + parts_before_newline(parts.skip(i as int)),
        decreases clobs.len() - i,
    {
        assert(parts.skip(i as int).drop_first() =~= parts.skip(i + 1));
        i += 1;
    }
    i
}

impl ClobData {
    pub fn new(span: ShortSpan, annotations: Vec<String>, clobs: Vec<ClobExpr>) -> (data: Self)
        ensures
            data.span == span,
            data.annotations@ == annotations@,
            data.clobs@ == clobs@,
    {
        ClobData { span, annotations, clobs }
    }

}

impl CountNewlines for ClobData {
    /// The sum over the fragments.
    open spec fn newlines(&self) -> nat {
        parts_newline_count(part_views(self.clobs@))
    }

    fn count_newlines(&self) -> (n: usize) {
        let mut total: usize = 0;
        let mut i: usize = 0;
        let ghost parts = part_views(self.clobs@);
        while i < self.clobs.len()
            invariant
                i <= self.clobs.len(),
                parts == part_views(self.clobs@),
                total == capped(parts_newline_count(parts.take(i as int))),
            decreases self.clobs.len() - i,
        {
            let here = match &self.clobs[i] {
                ClobExpr::MultilineString(d) => crate::text::byte_length(d.value.as_str()),
                ClobExpr::QuotedString(_) => 0,
                ClobExpr::Newlines(d) => d.newline_count as usize,
            };
            assert(here == parts[i as int].newline_count());
            assert(parts.take(i + 1).drop_last() =~= parts.take(i as int));
            total = add_capped(total, here);
            i += 1;
        }
        assert(parts.take(self.clobs.len() as int) =~= parts);
        total
    }
}

impl Clone for ClobData {
    fn clone(&self) -> (out: Self)
        ensures
            out.span == self.span,
            texts(out.annotations@) == texts(self.annotations@),
            part_views(out.clobs@) == part_views(self.clobs@),
    {
        ClobData {
            span: self.span,
            annotations: copy_strings(&self.annotations),
            clobs: copy_clobs(&self.clobs),
        }
    }
}

/// A copy of `items`.
pub fn copy_exprs(items: &Vec<Expr>) -> (out: Vec<Expr>)
    ensures
        node_views(out@) == node_views(items@),
    decreases items,
{
    broadcast use lemma_node_views;

    let mut out: Vec<Expr> = Vec::new();
    let mut i: usize = 0;
    while i < items.len()
        invariant
            i <= items.len(),
            out.len() == i,
            forall|j: int| 0 <= j < i ==> out[j]@ == items[j]@,
        decreases items.len() - i,
    {
        out.push(items[i].clone());
        i += 1;
    }
    assert(node_views(out@) =~= node_views(items@));
    out
}

/// The newline metric of `items`, capped at the largest `usize`.
pub fn count_newlines_in(items: &Vec<Expr>) -> (n: usize)
    ensures
        n == capped(newline_count(node_views(items@))),
    decreases items,
{
    broadcast use lemma_node_views;

    let mut total: usize = 0;
    let mut i: usize = 0;
    let ghost nodes = node_views(items@);
    while i < items.len()
        invariant
            i <= items.len(),
            nodes == node_views(items@),
            nodes.len() == items.len(),
            forall|j: int| 0 <= j < items.len() ==> nodes[j] == items[j]@,
            total == capped(newline_count(nodes.take(i as int))),
        decreases items.len() - i,
    {
        let here = items[i].count_newlines();
        assert(nodes.take(i + 1).drop_last() =~= nodes.take(i as int));
        total = add_capped(total, here);
        i += 1;
    }
    assert(nodes.take(items.len() as int) =~= nodes);
    total
}

/// Number of items that are neither comments nor newline runs before the first newline
/// run.
pub fn count_exprs_before_newline(items: &Vec<Expr>) -> (n: usize)
    ensures
        n == items_before_newline(node_views(items@)),
{
    broadcast use lemma_node_views;

    let mut count: usize = 0;
    let mut i: usize = 0;
    let ghost nodes = node_views(items@);
    assert(nodes.skip(0) =~= nodes);
    while i < items.len()
        invariant
            i <= items.len(),
            count <= i,
            nodes == node_views(items@),
            nodes.len() == items.len(),
            forall|j: int| 0 <= j < items.len() ==> nodes[j] == items[j]@,
            items_before_newline(nodes) == count + items_before_newline(nodes.skip(i as int)),
        decreases items.len() - i,
    {
        assert(nodes.skip(i as int).drop_first() =~= nodes.skip(i + 1));
        assert(nodes.skip(i as int)[0] == items[i as int]@);
        if items[i].is_not_comment_or_newlines() {
            count += 1;
        } else if items[i].is_newlines() {
            return count;
        }
        i += 1;
    }
    count
}

impl ListData {
    pub fn new(span: ShortSpan, annotations: Vec<String>, items: Vec<Expr>) -> (data: Self)
        ensures
            data.span == span,
            data.annotations@ == annotations@,
            data.items@ == items@,
    {
        ListData { span, annotations, items }
    }

    /// The newline metric of the children, capped at the largest `usize`.
    pub fn count_newlines(&self) -> (n: usize)
        ensures
            n == capped(newline_count(self@.items)),
        decreases self,
    {
        count_newlines_in(&self.items)
    }

    /// The children that are neither comments nor newline runs, in order.
    pub fn item_iter(&self) -> (out: Vec<&Expr>)
        ensures
            out@.map_values(|e: &Expr| e@) == self@.items.filter(
                |n: Node| n.is_not_comment_or_newlines(),
            ),
    {
        broadcast use lemma_node_views;

        let mut out: Vec<&Expr> = Vec::new();
        let mut i: usize = 0;
        let ghost nodes = self@.items;
        let ghost keep = |n: Node| n.is_not_comment_or_newlines();
        while i < self.items.len()
            invariant
                i <= self.items.len(),
                nodes == node_views(self.items@),
                nodes.len() == self.items.len(),
                forall|j: int| 0 <= j < self.items.len() ==> nodes[j] == self.items[j]@,
                keep == |n: Node| n.is_not_comment_or_newlines(),
                out@.map_values(|e: &Expr| e@) == nodes.take(i as int).filter(keep),
            decreases self.items.len() - i,
        {
            let item = &self.items[i];
            proof {
                assert(nodes.take(i + 1).drop_last() =~= nodes.take(i as int));
                reveal(Seq::filter);
            }
            if item.is_not_comment_or_newlines() {
                out.push(item);
                assert(out@.map_values(|e: &Expr| e@) =~= nodes.take(i as int).filter(keep).push(
                    item@,
                ));
            }
            i += 1;
        }
        assert(nodes.take(self.items.len() as int) =~= nodes);
        out
    }
}

impl Clone for ListData {
    fn clone(&self) -> (out: Self)
        ensures
            out@ == self@,
        decreases self,
    {
        ListData {
            span: self.span,
            annotations: copy_strings(&self.annotations),
            items: copy_exprs(&self.items),
        }
    }
}

impl StructMemberData {
    pub fn new(span: ShortSpan, items: Vec<Expr>) -> (data: Self)
        ensures
            data.span == span,
            data.items@ == items@,
    {
        StructMemberData { span, items }
    }
}

impl Expr {
    pub fn is_newlines(&self) -> (b: bool)
        ensures
            b == self@.is_newlines(),
    {
        match self {
            Expr::Newlines(_) => true,
            _ => false,
        }
    }

    pub fn is_comment(&self) -> (b: bool)
        ensures
            b == self@.is_comment(),
    {
        match self {
            Expr::CommentBlock(_) => true,
            Expr::CommentLine(_) => true,
            _ => false,
        }
    }

    pub fn is_comment_line(&self) -> (b: bool)
        ensures
            b == self@.is_comment_line(),
    {
        match self {
            Expr::CommentLine(_) => true,
            _ => false,
        }
    }

    pub fn _is_list(&self) -> (b: bool)
        ensures
            b == self@.is_list(),
    {
        match self {
            Expr::List(_) => true,
            _ => false,
        }
    }

    pub fn is_struct(&self) -> (b: bool)
        ensures
            b == self@.is_struct(),
    {
        match self {
            Expr::Struct(_) => true,
            _ => false,
        }
    }

    pub fn is_struct_key(&self) -> (b: bool)
        ensures
            b == self@.is_struct_key(),
    {
        match self {
            Expr::StructKey(_) => true,
            _ => false,
        }
    }

    pub fn is_sexpr(&self) -> (b: bool)
        ensures
            b == self@.is_sexpr(),
    {
        match self {
            Expr::SExpr(_) => true,
            _ => false,
        }
    }

    /// The children of a struct.
    pub fn into_struct_value(self) -> (data: Option<ListData>)
        ensures
            data is Some <==> self@.is_struct(),
            data matches Some(d) ==> self@ == Node::Struct(d@),
    {
        match self {
            Expr::Struct(data) => Some(data),
            _ => None,
        }
    }

    /// The children of an s-expression.
    pub fn sexpr_value(&self) -> (data: Option<&ListData>)
        ensures
            data is Some <==> self@.is_sexpr(),
            data matches Some(d) ==> self@ == Node::SExpr(d@),
    {
        match self {
            Expr::SExpr(data) => Some(data),
            _ => None,
        }
    }

    /// The children of a struct.
    pub fn struct_value(&self) -> (data: Option<&ListData>)
        ensures
            data is Some <==> self@.is_struct(),
            data matches Some(d) ==> self@ == Node::Struct(d@),
    {
        match self {
            Expr::Struct(data) => Some(data),
            _ => None,
        }
    }

    /// The children of a list.
    pub fn list_value(&self) -> (data: Option<&ListData>)
        ensures
            data is Some <==> self@.is_list(),
            data matches Some(d) ==> self@ == Node::List(d@),
    {
        match self {
            Expr::List(data) => Some(data),
            _ => None,
        }
    }

    pub fn is_not_comment_or_newlines(&self) -> (b: bool)
        ensures
            b == self@.is_not_comment_or_newlines(),
    {
        !self.is_newlines() && !self.is_comment()
    }

    pub fn is_value(&self) -> (b: bool)
        ensures
            b == self@.is_value(),
    {
        !self.is_newlines() && !self.is_comment() && !self.is_struct_key()
    }

    pub fn is_symbol(&self) -> (b: bool)
        ensures
            b == self@.is_symbol(),
    {
        match self {
            Expr::Atomic(atomic) => match atomic.typ {
                AtomicType::Symbol => true,
                _ => false,
            },
            _ => false,
        }
    }

    /// The text of a symbol without the quotes around it.
    pub fn stripped_symbol_value(&self) -> (text: Option<&str>)
        ensures
            match text {
                Some(t) => self@.stripped_symbol_text() == Some(t@),
                None => self@.stripped_symbol_text() is None,
            },
    {
        match self.symbol_value() {
            Some(val) => {
                let val = val.as_str();
                let len = val.unicode_len();
                if len >= 2 && val.get_char(0) == '\'' && val.get_char(len - 1) == '\'' {
                    Some(val.substring_char(1, len - 1))
                } else {
                    Some(val)
                }
            },
            None => None,
        }
    }

    /// The text of a symbol as written.
    pub fn symbol_value(&self) -> (text: Option<&String>)
        ensures
            match text {
                Some(t) => self@.symbol_text() == Some(t@),
                None => self@.symbol_text() is None,
            },
    {
        match self {
            Expr::Atomic(atomic) => match atomic.typ {
                AtomicType::Symbol => Some(&atomic.value),
                _ => None,
            },
            _ => None,
        }
    }

    pub fn span(&self) -> (span: ShortSpan)
        ensures
            span == self@.span(),
    {
        match self {
            Expr::Atomic(data) => data.span,
            Expr::Clob(data) => data.span,
            Expr::CommentBlock(data) => data.span,
            Expr::CommentLine(data) => data.span,
            Expr::List(data) => data.span,
            Expr::MultilineString(data) => data.span,
            Expr::Newlines(data) => data.span,
            Expr::SExpr(data) => data.span,
            Expr::Struct(data) => data.span,
            Expr::StructKey(data) => data.span,
            Expr::StructMember(data) => data.span,
        }
    }

    /// The node with `annotations` in place of its own.
    pub fn attach_annotations(self, annotations: Vec<String>) -> (out: Expr)
        requires
            self@.is_annotatable(),
        ensures
            out@ == self@.with_annotations(texts(annotations@)),
    {
        match self {
            Expr::Atomic(data) => Expr::Atomic(AtomicData { annotations, ..data }),
            Expr::Clob(data) => Expr::Clob(ClobData { annotations, ..data }),
            Expr::List(data) => Expr::List(ListData { annotations, ..data }),
            Expr::MultilineString(data) => Expr::MultilineString(
                MultilineStringData { annotations, ..data },
            ),
            Expr::SExpr(data) => Expr::SExpr(ListData { annotations, ..data }),
            Expr::Struct(data) => Expr::Struct(ListData { annotations, ..data }),
            other => other,
        }
    }

    /// The content of a quoted or multi-line string.
    pub fn string_value(&self) -> (text: Option<&String>)
        ensures
            match text {
                Some(t) => self@.string_text() == Some(t@),
                None => self@.string_text() is None,
            },
    {
        match self {
            Expr::Atomic(data) => match data.typ {
                AtomicType::QuotedString => Some(&data.value),
                _ => None,
            },
            Expr::MultilineString(data) => Some(&data.value),
            _ => None,
        }
    }

}

impl CountNewlines for Expr {
    open spec fn newlines(&self) -> nat {
        self@.newline_count()
    }

    fn count_newlines(&self) -> (n: usize)
        decreases self,
    {
        match self {
            Expr::Atomic(_) => 0,
            Expr::Clob(data) => data.count_newlines(),
            Expr::CommentBlock(data) => data.value.len(),
            Expr::CommentLine(_) => 1,
            Expr::List(data) => data.count_newlines(),
            Expr::MultilineString(data) => data.count_newlines(),
            Expr::Newlines(data) => data.newline_count as usize,
            Expr::SExpr(data) => data.count_newlines(),
            Expr::Struct(data) => data.count_newlines(),
            Expr::StructKey(_) => 0,
            Expr::StructMember(data) => count_newlines_in(&data.items),
        }
    }
}

impl CountNewlines for Vec<Expr> {
    open spec fn newlines(&self) -> nat {
        newline_count(node_views(self@))
    }

    fn count_newlines(&self) -> (n: usize) {
        count_newlines_in(self)
    }
}

impl CountItemsBeforeNewline for Vec<Expr> {
    open spec fn items_before_newline(&self) -> nat {
        items_before_newline(node_views(self@))
    }

    fn count_items_before_newline(&self) -> (n: usize) {
        count_exprs_before_newline(self)
    }
}

impl CountItemsBeforeNewline for Vec<ClobExpr> {
    open spec fn items_before_newline(&self) -> nat {
        parts_before_newline(part_views(self@))
    }

    fn count_items_before_newline(&self) -> (n: usize) {
        count_clobs_before_newline(self)
    }
}

impl<P, U> CountUntilPred<P, U> for Vec<Expr> where P: Fn(&Expr) -> bool, U: Fn(&Expr) -> bool {
    open spec fn counted_items(&self) -> Seq<Expr> {
        self@
    }

    fn count_until(&self, pred: P, until: U) -> (n: usize) {
        let mut count: usize = 0;
        let mut i: usize = 0;
        assert(self@.skip(0) =~= self@);
        while i < self.len()
            invariant
                i <= self.len(),
                count <= i,
                decides(pred),
                decides(until),
                counted(self@, pred, until) == count + counted(self@.skip(i as int), pred, until),
            decreases self.len() - i,
        {
            let expr = &self[i];
            assert(self@.skip(i as int).drop_first() =~= self@.skip(i + 1));
            assert(self@.skip(i as int)[0] == *expr);
            if pred(expr) {
                count += 1;
            } else if until(expr) {
                return count;
            }
            i += 1;
        }
        count
    }
}

impl Clone for Expr {
    fn clone(&self) -> (out: Self)
        ensures
            out@ == self@,
        decreases self,
    {
        match self {
            Expr::Atomic(d) => Expr::Atomic(d.clone()),
            Expr::Clob(d) => Expr::Clob(d.clone()),
            Expr::CommentBlock(d) => Expr::CommentBlock(d.clone()),
            Expr::CommentLine(d) => Expr::CommentLine(d.clone()),
            Expr::List(d) => Expr::List(d.clone()),
            Expr::MultilineString(d) => Expr::MultilineString(d.clone()),
            Expr::Newlines(d) => Expr::Newlines(*d),
            Expr::SExpr(d) => Expr::SExpr(d.clone()),
            Expr::Struct(d) => Expr::Struct(d.clone()),
            Expr::StructKey(d) => Expr::StructKey(d.clone()),
            Expr::StructMember(d) => Expr::StructMember(
                StructMemberData { span: d.span, items: copy_exprs(&d.items) },
            ),
        }
    }
}

} // verus!
