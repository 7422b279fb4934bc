//! The intermediate syntax tree: the concrete tree with struct members flattened into
//! the children of their struct. It is what the fix-up pass and the formatter walk.
use crate::ast;
use crate::ast::{
    add_capped, capped, copy_strings, part_views, AtomicData, ClobData, CountItemsBeforeNewline,
    CountNewlines, MultilineStringData, NewlinesData, NonAnnotatedStringData,
    NonAnnotatedStringListData,
};
use crate::error::Error;
use crate::model::{items_before_newline, newline_count, texts, AtomicType, Compound, Node};
use crate::span::ShortSpan;
use vstd::prelude::*;

verus! {

/// A list, an s-expression or a struct: annotations and children in source order. The
/// children of a struct are keys, values, comments and newline runs side by side.
#[derive(Debug)]
pub struct ListData {
    pub span: ShortSpan,
    pub annotations: Vec<String>,
    pub items: Vec<IExpr>,
}

/// A node of the intermediate syntax tree.
#[derive(Debug)]
pub enum IExpr {
    Atomic(AtomicData),
    Clob(ClobData),
    CommentBlock(NonAnnotatedStringListData),
    CommentLine(NonAnnotatedStringData),
    List(ListData),
    MultilineString(MultilineStringData),
    Newlines(NewlinesData),
    SExpr(ListData),
    Struct(ListData),
    StructKey(NonAnnotatedStringData),
}

/// A whole file as an intermediate tree: its top-level forms in source order.
#[derive(Debug)]
pub struct IntermediateSyntaxTree {
    pub expressions: Vec<IExpr>,
}

/// The views of a sequence of nodes.
pub open spec fn node_views(items: Seq<IExpr>) -> Seq<Node>
    decreases items,
{
    Seq::new(
        items.len(),
        |i: int|
            if 0 <= i < items.len() {
                items[i]@
            } else {
                arbitrary()
            },
    )
}

/// What `node_views` holds, position by position.
pub broadcast proof fn lemma_node_views(items: Seq<IExpr>)
    ensures
        #![trigger node_views(items)]
        node_views(items).len() == items.len(),
        forall|i: int| 0 <= i < items.len() ==> (#[trigger] node_views(items)[i]) == items[i]@,
{
    reveal_with_fuel(node_views, 2);
}

impl View for ListData {
    type V = Compound;

    open spec fn view(&self) -> Compound
        decreases self,
    {
        Compound {
            span: self.span,
            annotations: texts(self.annotations@),
            items: node_views(self.items@),
        }
    }
}

impl View for IExpr {
    type V = Node;

    open spec fn view(&self) -> Node
        decreases self,
    {
        match self {
            IExpr::Atomic(d) => Node::Atomic(d@),
            IExpr::Clob(d) => Node::Clob {
                span: d.span,
                annotations: texts(d.annotations@),
                parts: part_views(d.clobs@),
            },
            IExpr::CommentBlock(d) => Node::CommentBlock { span: d.span, lines: texts(d.value@) },
            IExpr::CommentLine(d) => Node::CommentLine { span: d.span, text: d.value@ },
            IExpr::List(d) => Node::List(d@),
            IExpr::MultilineString(d) => Node::MultilineString(d@),
            IExpr::Newlines(d) => Node::Newlines(d@),
            IExpr::SExpr(d) => Node::SExpr(d@),
            IExpr::Struct(d) => Node::Struct(d@),
            IExpr::StructKey(d) => Node::StructKey { span: d.span, text: d.value@ },
        }
    }
}

impl View for IntermediateSyntaxTree {
    type V = Seq<Node>;

    open spec fn view(&self) -> Seq<Node> {
        node_views(self.expressions@)
    }
}

/// A copy of `items`.
pub fn copy_exprs(items: &Vec<IExpr>) -> (out: Vec<IExpr>)
    ensures
        node_views(out@) == node_views(items@),
    decreases items,
{
    broadcast use lemma_node_views;

    let mut out: Vec<IExpr> = Vec::new();
    let mut i: usize = 0;
    while i < items.len()
        invariant
            i <= items.len(),
            out.len() == i,
            forall|j: int| 0 <= j < i ==> out[j]@ == items[j]@,
        decreases items.len() - i,
    {
        out.push(items[i].clone());
        i += 1;
    }
    assert(node_views(out@) =~= node_views(items@));
    out
}

/// The newline metric of `items`, capped at the largest `usize`.
pub fn count_newlines_in(items: &Vec<IExpr>) -> (n: usize)
    ensures
        n == capped(newline_count(node_views(items@))),
    decreases items,
{
    broadcast use lemma_node_views;

    let mut total: usize = 0;
    let mut i: usize = 0;
    let ghost nodes = node_views(items@);
    while i < items.len()
        invariant
            i <= items.len(),
            nodes == node_views(items@),
            nodes.len() == items.len(),
            forall|j: int| 0 <= j < items.len() ==> nodes[j] == items[j]@,
            total == capped(newline_count(nodes.take(i as int))),
        decreases items.len() - i,
    {
        let here = items[i].count_newlines();
        assert(nodes.take(i + 1).drop_last() =~= nodes.take(i as int));
        total = add_capped(total, here);
        i += 1;
    }
    assert(nodes.take(items.len() as int) =~= nodes);
    total
}

/// Number of items that are neither comments nor newline runs before the first newline
/// run.
pub fn count_exprs_before_newline(items: &Vec<IExpr>) -> (n: usize)
    ensures
        n == items_before_newline(node_views(items@)),
{
    broadcast use lemma_node_views;

    let mut count: usize = 0;
    let mut i: usize = 0;
    let ghost nodes = node_views(items@);
    assert(nodes.skip(0) =~= nodes);
    while i < items.len()
        invariant
            i <= items.len(),
            count <= i,
            nodes == node_views(items@),
            nodes.len() == items.len(),
            forall|j: int| 0 <= j < items.len() ==> nodes[j] == items[j]@,
            items_before_newline(nodes) == count + items_before_newline(nodes.skip(i as int)),
        decreases items.len() - i,
    {
        assert(nodes.skip(i as int).drop_first() =~= nodes.skip(i + 1));
        assert(nodes.skip(i as int)[0] == items[i as int]@);
        if items[i].is_not_comment_or_newlines() {
            count += 1;
        } else if items[i].is_newlines() {
            return count;
        }
        i += 1;
    }
    count
}

impl ListData {
    pub fn new(span: ShortSpan, annotations: Vec<String>, items: Vec<IExpr>) -> (data: Self)
        ensures
            data.span == span,
            data.annotations@ == annotations@,
            data.items@ == items@,
    {
        ListData { span, annotations, items }
    }

    /// The newline metric of the children, capped at the largest `usize`.
    pub fn count_newlines(&self) -> (n: usize)
        ensures
            n == capped(newline_count(self@.items)),
        decreases self,
    {
        count_newlines_in(&self.items)
    }

    /// The children that are neither comments nor newline runs, in order.
    pub fn item_iter(&self) -> (out: Vec<&IExpr>)
        ensures
            out@.map_values(|e: &IExpr| e@) == self@.items.filter(
                |n: Node| n.is_not_comment_or_newlines(),
            ),
    {
        broadcast use lemma_node_views;

        let mut out: Vec<&IExpr> = Vec::new();
        let mut i: usize = 0;
        let ghost nodes = self@.items;
        let ghost keep = |n: Node| n.is_not_comment_or_newlines();
        while i < self.items.len()
            invariant
                i <= self.items.len(),
                nodes == node_views(self.items@),
                nodes.len() == self.items.len(),
                forall|j: int| 0 <= j < self.items.len() ==> nodes[j] == self.items[j]@,
                keep == |n: Node| n.is_not_comment_or_newlines(),
                out@.map_values(|e: &IExpr| e@) == nodes.take(i as int).filter(keep),
            decreases self.items.len() - i,
        {
            let item = &self.items[i];
            proof {
                assert(nodes.take(i + 1).drop_last() =~= nodes.take(i as int));
                reveal(Seq::filter);
            }
            if item.is_not_comment_or_newlines() {
                out.push(item);
                assert(out@.map_values(|e: &IExpr| e@) =~= nodes.take(i as int).filter(keep).push(
                    item@,
                ));
            }
            i += 1;
        }
        assert(nodes.take(self.items.len() as int) =~= nodes);
        out
    }
}

impl Clone for ListData {
    fn clone(&self) -> (out: Self)
        ensures
            out@ == self@,
        decreases self,
    {
        ListData {
            span: self.span,
            annotations: copy_strings(&self.annotations),
            items: copy_exprs(&self.items),
        }
    }
}

impl IExpr {
    /// The children of a list, an s-expression or a struct.
    pub fn list_data(&self) -> (data: &ListData)
        requires
            self@.is_compound(),
        ensures
            data@.items == self@.items(),
            self@ == self@.with_items(data@.items),
            data@.span == self@.span(),
    {
        match self {
            IExpr::List(data) => data,
            IExpr::SExpr(data) => data,
            IExpr::Struct(data) => data,
            _ => vstd::pervasive::unreached(),
        }
    }

    /// The text of a symbol as written.
    pub fn symbol_value(&self) -> (text: &String)
        requires
            self@.is_symbol(),
        ensures
            self@.symbol_text() == Some(text@),
    {
        match self {
            IExpr::Atomic(atomic) => &atomic.value,
            _ => vstd::pervasive::unreached(),
        }
    }

    pub fn is_newlines(&self) -> (b: bool)
        ensures
            b == self@.is_newlines(),
    {
        match self {
            IExpr::Newlines(_) => true,
            _ => false,
        }
    }

    pub fn is_comment(&self) -> (b: bool)
        ensures
            b == self@.is_comment(),
    {
        match self {
            IExpr::CommentBlock(_) => true,
            IExpr::CommentLine(_) => true,
            _ => false,
        }
    }

    pub fn is_comment_line(&self) -> (b: bool)
        ensures
            b == self@.is_comment_line(),
    {
        match self {
            IExpr::CommentLine(_) => true,
            _ => false,
        }
    }

    pub fn is_list(&self) -> (b: bool)
        ensures
            b == self@.is_list(),
    {
        match self {
            IExpr::List(_) => true,
            _ => false,
        }
    }

    pub fn is_struct(&self) -> (b: bool)
        ensures
            b == self@.is_struct(),
    {
        match self {
            IExpr::Struct(_) => true,
            _ => false,
        }
    }

    pub fn is_struct_key(&self) -> (b: bool)
        ensures
            b == self@.is_struct_key(),
    {
        match self {
            IExpr::StructKey(_) => true,
            _ => false,
        }
    }

    pub fn is_sexpr(&self) -> (b: bool)
        ensures
            b == self@.is_sexpr(),
    {
        match self {
            IExpr::SExpr(_) => true,
            _ => false,
        }
    }

    pub fn is_not_comment_or_newlines(&self) -> (b: bool)
        ensures
            b == self@.is_not_comment_or_newlines(),
    {
        !self.is_newlines() && !self.is_comment()
    }

    pub fn is_value(&self) -> (b: bool)
        ensures
            b == self@.is_value(),
    {
        !self.is_newlines() && !self.is_comment() && !self.is_struct_key()
    }

    pub fn is_symbol(&self) -> (b: bool)
        ensures
            b == self@.is_symbol(),
    {
        match self {
            IExpr::Atomic(atomic) => match atomic.typ {
                AtomicType::Symbol => true,
                _ => false,
            },
            _ => false,
        }
    }

    /// The text of a symbol without the quotes around it.
    pub fn stripped_symbol_value(&self) -> (text: Option<&str>)
        ensures
            match text {
                Some(t) => self@.stripped_symbol_text() == Some(t@),
                None => self@.stripped_symbol_text() is None,
            },
    {
        if self.is_symbol() {
            let val = self.symbol_value().as_str();
            let len = val.unicode_len();
            if len >= 2 && val.get_char(0) == '\'' && val.get_char(len - 1) == '\'' {
                Some(val.substring_char(1, len - 1))
            } else {
                Some(val)
            }
        } else {
            None
        }
    }

    pub fn span(&self) -> (span: ShortSpan)
        ensures
            span == self@.span(),
    {
        match self {
            IExpr::Atomic(data) => data.span,
            IExpr::Clob(data) => data.span,
            IExpr::CommentBlock(data) => data.span,
            IExpr::CommentLine(data) => data.span,
            IExpr::List(data) => data.span,
            IExpr::MultilineString(data) => data.span,
            IExpr::Newlines(data) => data.span,
            IExpr::SExpr(data) => data.span,
            IExpr::Struct(data) => data.span,
            IExpr::StructKey(data) => data.span,
        }
    }

}

impl CountNewlines for IExpr {
    open spec fn newlines(&self) -> nat {
        self@.newline_count()
    }

    fn count_newlines(&self) -> (n: usize)
        decreases self,
    {
        match self {
            IExpr::Atomic(_) => 0,
            IExpr::Clob(data) => data.count_newlines(),
            IExpr::CommentBlock(data) => data.value.len(),
            IExpr::CommentLine(_) => 1,
            IExpr::List(data) => data.count_newlines(),
            IExpr::MultilineString(data) => data.count_newlines(),
            IExpr::Newlines(data) => data.newline_count as usize,
            IExpr::SExpr(data) => data.count_newlines(),
            IExpr::Struct(data) => data.count_newlines(),
            IExpr::StructKey(_) => 0,
        }
    }
}

impl CountNewlines for Vec<IExpr> {
    open spec fn newlines(&self) -> nat {
        newline_count(node_views(self@))
    }

    fn count_newlines(&self) -> (n: usize) {
        count_newlines_in(self)
    }
}

impl CountItemsBeforeNewline for Vec<IExpr> {
    open spec fn items_before_newline(&self) -> nat {
        items_before_newline(node_views(self@))
    }

    fn count_items_before_newline(&self) -> (n: usize) {
        count_exprs_before_newline(self)
    }
}

/// Counting with two tests: one that says what counts, one that says where to stop.
pub trait CountUntilPred<P, U> where P: Fn(&IExpr) -> bool, U: Fn(&IExpr) -> bool {
    /// The number of items that `pred` accepts before the first item that `pred` does
    /// not accept and `until` does.
    fn count_until(&self, pred: P, until: U) -> (n: usize)
        requires
            decides(pred),
            decides(until),
        ensures
            n == counted(self.counted_items(), pred, until),
    ;

    /// The items that are counted.
    spec fn counted_items(&self) -> Seq<IExpr>;
}

/// `test` can be called on every node and gives one answer for each.
pub open spec fn decides<F: Fn(&IExpr) -> bool>(test: F) -> bool {
    forall|e: &IExpr|
        #![trigger call_requires(test, (e,))]
        call_requires(test, (e,)) && !(call_ensures(test, (e,), true) && call_ensures(
            test,
            (e,),
            false,
        ))
}

/// The number of `items` that `pred` accepts before the first one that `pred` does not
/// accept and `until` does.
pub open spec fn counted<P: Fn(&IExpr) -> bool, U: Fn(&IExpr) -> bool>(
    items: Seq<IExpr>,
    pred: P,
    until: U,
) -> nat
    decreases items.len(),
{
    if items.len() == 0 {
        0
    } else if call_ensures(pred, (&items[0],), true) {
        1 + counted(items.drop_first(), pred, until)
    } else if call_ensures(until, (&items[0],), true) {
        0
    } else {
        counted(items.drop_first(), pred, until)
    }
}

impl<P, U> CountUntilPred<P, U> for Vec<IExpr> where P: Fn(&IExpr) -> bool, U: Fn(&IExpr) -> bool {
    open spec fn counted_items(&self) -> Seq<IExpr> {
        self@
    }

    fn count_until(&self, pred: P, until: U) -> (n: usize) {
        let mut count: usize = 0;
        let mut i: usize = 0;
        assert(self@.skip(0) =~= self@);
        while i < self.len()
            invariant
                i <= self.len(),
                count <= i,
                decides(pred),
                decides(until),
                counted(self@, pred, until) == count + counted(self@.skip(i as int), pred, until),
            decreases self.len() - i,
        {
            let expr = &self[i];
            assert(self@.skip(i as int).drop_first() =~= self@.skip(i + 1));
            assert(self@.skip(i as int)[0] == *expr);
            if pred(expr) {
                count += 1;
            } else if until(expr) {
                return count;
            }
            i += 1;
        }
        count
    }
}

impl Clone for IExpr {
    fn clone(&self) -> (out: Self)
        ensures
            out@ == self@,
        decreases self,
    {
        match self {
            IExpr::Atomic(d) => IExpr::Atomic(d.clone()),
            IExpr::Clob(d) => IExpr::Clob(d.clone()),
            IExpr::CommentBlock(d) => IExpr::CommentBlock(d.clone()),
            IExpr::CommentLine(d) => IExpr::CommentLine(d.clone()),
            IExpr::List(d) => IExpr::List(d.clone()),
            IExpr::MultilineString(d) => IExpr::MultilineString(d.clone()),
            IExpr::Newlines(d) => IExpr::Newlines(*d),
            IExpr::SExpr(d) => IExpr::SExpr(d.clone()),
            IExpr::Struct(d) => IExpr::Struct(d.clone()),
            IExpr::StructKey(d) => IExpr::StructKey(d.clone()),
        }
    }
}

/// What the error for a struct key or a struct member outside a struct says.
pub const UNEXPECTED_MEMBER: &'static str = "unexpected struct key or struct member";

/// What the error for a child of a struct that is no member says.
pub const UNEXPECTED_VALUE: &'static str = "unexpected value in a struct";

/// A node that stands where the intermediate tree has no place for it: a struct key or
/// a struct member outside a struct, or (`value`) a child of a struct that is neither a
/// member, a comment nor a newline run.
pub struct Unexpected {
    pub span: ShortSpan,
    pub value: bool,
}

impl Unexpected {
    /// What the error for the node says.
    pub open spec fn message(self) -> Seq<char> {
        if self.value {
            UNEXPECTED_VALUE@
        } else {
            UNEXPECTED_MEMBER@
        }
    }
}

/// The intermediate form of a concrete node: the node itself, with the members of every
/// struct below it flattened. There is none for a struct key or a struct member, which
/// have no place outside a struct, nor for a node that holds a node out of place; the
/// first such node is named then.
pub open spec fn lowered(n: Node) -> Result<Node, Unexpected>
    decreases n, 0int,
{
    match n {
        Node::List(c) => match lowered_from(c.items, 0, Seq::empty()) {
            Ok(items) => Ok(Node::List(Compound { items, ..c })),
            Err(e) => Err(e),
        },
        Node::SExpr(c) => match lowered_from(c.items, 0, Seq::empty()) {
            Ok(items) => Ok(Node::SExpr(Compound { items, ..c })),
            Err(e) => Err(e),
        },
        Node::Struct(c) => match lowered_members(c.items, 0, Seq::empty()) {
            Ok(items) => Ok(Node::Struct(Compound { items, ..c })),
            Err(e) => Err(e),
        },
        Node::StructKey { span, .. } => Err(Unexpected { span, value: false }),
        Node::StructMember { span, .. } => Err(Unexpected { span, value: false }),
        other => Ok(other),
    }
}

/// `done` followed by the intermediate forms of `items[from..]`.
pub open spec fn lowered_from(items: Seq<Node>, from: int, done: Seq<Node>) -> Result<
    Seq<Node>,
    Unexpected,
>
    decreases items, items.len() - from,
{
    if from < 0 || from >= items.len() {
        Ok(done)
    } else {
        match lowered(items[from]) {
            Ok(node) => lowered_from(items, from + 1, done.push(node)),
            Err(e) => Err(e),
        }
    }
}

/// `done` followed by the intermediate forms of `items[from..]`, the items of one struct
/// member: a key stays as it is, any other item is lowered.
pub open spec fn lowered_member(items: Seq<Node>, from: int, done: Seq<Node>) -> Result<
    Seq<Node>,
    Unexpected,
>
    decreases items, items.len() - from,
{
    if from < 0 || from >= items.len() {
        Ok(done)
    } else if items[from] is StructKey {
        lowered_member(items, from + 1, done.push(items[from]))
    } else {
        match lowered(items[from]) {
            Ok(node) => lowered_member(items, from + 1, done.push(node)),
            Err(e) => Err(e),
        }
    }
}

/// `done` followed by `items[from..]`, the children of a struct, in intermediate form:
/// the items of each member in place of the member, comments and newline runs as they
/// are. There is none if the struct has a child of another kind.
pub open spec fn lowered_members(items: Seq<Node>, from: int, done: Seq<Node>) -> Result<
    Seq<Node>,
    Unexpected,
>
    decreases items, items.len() - from,
{
    if from < 0 || from >= items.len() {
        Ok(done)
    } else {
        match items[from] {
            Node::StructMember { items: inner, .. } => match lowered_member(inner, 0, done) {
                Ok(more) => lowered_members(items, from + 1, more),
                Err(e) => Err(e),
            },
            Node::CommentBlock { .. } => lowered_members(items, from + 1, done.push(items[from])),
            Node::CommentLine { .. } => lowered_members(items, from + 1, done.push(items[from])),
            Node::Newlines(_) => lowered_members(items, from + 1, done.push(items[from])),
            other => Err(Unexpected { span: other.span(), value: true }),
        }
    }
}

/// The intermediate forms of `items`, if each of them has one.
pub open spec fn lowered_items(items: Seq<Node>) -> Result<Seq<Node>, Unexpected> {
    lowered_from(items, 0, Seq::empty())
}

/// The error for a node out of place.
fn unexpected(span: ShortSpan, value: bool) -> (error: Error)
    ensures
        error.span() == Some(span),
        error.message() == (Unexpected { span, value }).message(),
{
    if value {
        Error::spanned(span, UNEXPECTED_VALUE)
    } else {
        Error::spanned(span, UNEXPECTED_MEMBER)
    }
}

/// Whether the outcome of a step is what the rules say: the nodes on success, and on
/// failure an error at the span of the first node out of place, with its message.
pub open spec fn agrees(result: Result<Seq<Node>, Error>, rule: Result<Seq<Node>, Unexpected>) -> bool {
    match result {
        Ok(nodes) => rule == Ok::<Seq<Node>, Unexpected>(nodes),
        Err(error) => rule matches Err(e) && error.span() == Some(e.span) && error.message()
            == e.message(),
    }
}

impl IntermediateSyntaxTree {
    pub fn new(expressions: Vec<IExpr>) -> (tree: Self)
        ensures
            tree.expressions@ == expressions@,
    {
        IntermediateSyntaxTree { expressions }
    }

    /// Lowers a concrete tree. Fails exactly if the tree holds a struct key or a struct
    /// member outside a struct, or a struct with a child that is neither a member, a
    /// comment nor a newline run; the error names the first such node.
    pub fn from_ast(from: &Vec<ast::Expr>) -> (tree: Result<IntermediateSyntaxTree, Error>)
        ensures
            agrees(
                match tree {
                    Ok(t) => Ok(t@),
                    Err(e) => Err(e),
                },
                lowered_items(ast::node_views(from@)),
            ),
    {
        match visit_ast_exprs(from) {
            Ok(expressions) => Ok(IntermediateSyntaxTree::new(expressions)),
            Err(error) => Err(error),
        }
    }
}

/// The outcome of a step that gives nodes.
pub open spec fn nodes_of(result: Result<Vec<IExpr>, Error>) -> Result<Seq<Node>, Error> {
    match result {
        Ok(nodes) => Ok(node_views(nodes@)),
        Err(e) => Err(e),
    }
}

/// The outcome of a step that gives a node.
pub open spec fn node_of(result: Result<IExpr, Error>) -> Result<Node, Error> {
    match result {
        Ok(node) => Ok(node@),
        Err(e) => Err(e),
    }
}

/// Whether the outcome of a step is what the rules say.
pub open spec fn agrees_on(result: Result<Node, Error>, rule: Result<Node, Unexpected>) -> bool {
    match result {
        Ok(node) => rule == Ok::<Node, Unexpected>(node),
        Err(error) => rule matches Err(e) && error.span() == Some(e.span) && error.message()
            == e.message(),
    }
}

fn visit_ast_exprs(exprs: &Vec<ast::Expr>) -> (out: Result<Vec<IExpr>, Error>)
    ensures
        agrees(nodes_of(out), lowered_from(ast::node_views(exprs@), 0, Seq::empty())),
    decreases exprs, exprs.len(),
{
    broadcast use lemma_node_views, ast::lemma_node_views;

    let mut out: Vec<IExpr> = Vec::new();
    let mut i: usize = 0;
    let ghost nodes = ast::node_views(exprs@);
    assert(node_views(out@) =~= Seq::<Node>::empty());
    while i < exprs.len()
        invariant
            i <= exprs.len(),
            nodes == ast::node_views(exprs@),
            nodes.len() == exprs.len(),
            forall|j: int| 0 <= j < exprs.len() ==> nodes[j] == exprs[j]@,
            lowered_from(nodes, i as int, node_views(out@)) == lowered_from(nodes, 0, Seq::empty()),
        decreases exprs.len() - i,
    {
        match visit_ast_expr(&exprs[i]) {
            Ok(iexpr) => {
                let ghost before = node_views(out@);
                out.push(iexpr);
                assert(node_views(out@) =~= before.push(iexpr@));
            },
            Err(error) => {
                return Err(error);
            },
        }
        i += 1;
    }
    Ok(out)
}

fn visit_ast_expr(expr: &ast::Expr) -> (out: Result<IExpr, Error>)
    ensures
        agrees_on(node_of(out), lowered(expr@)),
    decreases expr, 0int,
{
    match expr {
        ast::Expr::Atomic(value) => Ok(IExpr::Atomic(value.clone())),
        ast::Expr::Clob(value) => visit_ast_clob(value),
        ast::Expr::CommentBlock(value) => visit_ast_block_comment(value),
        ast::Expr::CommentLine(value) => visit_ast_line_comment(value),
        ast::Expr::List(value) => visit_ast_list(value),
        ast::Expr::MultilineString(value) => visit_ast_multiline_string(value),
        ast::Expr::Newlines(value) => Ok(IExpr::Newlines(*value)),
        ast::Expr::SExpr(value) => visit_ast_sexpr(value),
        ast::Expr::Struct(value) => visit_ast_struct(value),
        ast::Expr::StructKey(value) => Err(unexpected(value.span, false)),
        ast::Expr::StructMember(value) => Err(unexpected(value.span, false)),
    }
}

/// Lowers the items of one struct member after `ist`.
fn visit_ast_struct_member(exprs: &Vec<ast::Expr>, ist: &mut Vec<IExpr>) -> (out: Result<(), Error>)
    ensures
        agrees(
            match out {
                Ok(_) => Ok(node_views(final(ist)@)),
                Err(e) => Err(e),
            },
            lowered_member(ast::node_views(exprs@), 0, node_views(old(ist)@)),
        ),
    decreases exprs, exprs.len(),
{
    broadcast use lemma_node_views, ast::lemma_node_views;

    let mut i: usize = 0;
    let ghost nodes = ast::node_views(exprs@);
    while i < exprs.len()
        invariant
            i <= exprs.len(),
            nodes == ast::node_views(exprs@),
            nodes.len() == exprs.len(),
            forall|j: int| 0 <= j < exprs.len() ==> nodes[j] == exprs[j]@,
            lowered_member(nodes, i as int, node_views(ist@)) == lowered_member(
                nodes,
                0,
                node_views(old(ist)@),
            ),
        decreases exprs.len() - i,
    {
        let lowered = match &exprs[i] {
            ast::Expr::StructKey(key) => Ok(IExpr::StructKey(key.clone())),
            other => visit_ast_expr(other),
        };
        match lowered {
            Ok(iexpr) => {
                let ghost before = node_views(ist@);
                ist.push(iexpr);
                assert(node_views(ist@) =~= before.push(iexpr@));
            },
            Err(error) => {
                return Err(error);
            },
        }
        i += 1;
    }
    Ok(())
}

fn visit_ast_struct(expr: &ast::ListData) -> (out: Result<IExpr, Error>)
    ensures
        agrees_on(node_of(out), lowered(Node::Struct(expr@))),
    decreases expr, 0int,
{
    broadcast use lemma_node_views, ast::lemma_node_views;

    let mut ist: Vec<IExpr> = Vec::new();
    let mut i: usize = 0;
    let ghost nodes = ast::node_views(expr.items@);
    assert(node_views(ist@) =~= Seq::<Node>::empty());
    while i < expr.items.len()
        invariant
            i <= expr.items.len(),
            nodes == ast::node_views(expr.items@),
            nodes.len() == expr.items.len(),
            forall|j: int| 0 <= j < expr.items.len() ==> nodes[j] == expr.items[j]@,
            lowered_members(nodes, i as int, node_views(ist@)) == lowered_members(
                nodes,
                0,
                Seq::empty(),
            ),
        decreases expr.items.len() - i,
    {
        let ghost before = node_views(ist@);
        match &expr.items[i] {
            ast::Expr::StructMember(mem) => {
                match visit_ast_struct_member(&mem.items, &mut ist) {
                    Ok(_) => {},
                    Err(error) => {
                        return Err(error);
                    },
                }
            },
            ast::Expr::CommentBlock(value) => {
                let iexpr = IExpr::CommentBlock(value.clone());
                ist.push(iexpr);
                assert(node_views(ist@) =~= before.push(iexpr@));
            },
            ast::Expr::CommentLine(value) => {
                let iexpr = IExpr::CommentLine(value.clone());
                ist.push(iexpr);
                assert(node_views(ist@) =~= before.push(iexpr@));
            },
            ast::Expr::Newlines(value) => {
                let iexpr = IExpr::Newlines(*value);
                ist.push(iexpr);
                assert(node_views(ist@) =~= before.push(iexpr@));
            },
            other => {
                return Err(unexpected(other.span(), true));
            },
        }
        i += 1;
    }
    Ok(IExpr::Struct(ListData::new(expr.span, copy_strings(&expr.annotations), ist)))
}

fn visit_ast_block_comment(expr: &NonAnnotatedStringListData) -> (out: Result<IExpr, Error>)
    ensures
        out matches Ok(e) && e@ == (Node::CommentBlock {
            span: expr.span,
            lines: texts(expr.value@),
        }),
{
    Ok(IExpr::CommentBlock(expr.clone()))
}

fn visit_ast_line_comment(expr: &NonAnnotatedStringData) -> (out: Result<IExpr, Error>)
    ensures
        out matches Ok(e) && e@ == (Node::CommentLine { span: expr.span, text: expr.value@ }),
{
    Ok(IExpr::CommentLine(expr.clone()))
}

fn visit_ast_clob(expr: &ClobData) -> (out: Result<IExpr, Error>)
    ensures
        out matches Ok(e) && e@ == (Node::Clob {
            span: expr.span,
            annotations: texts(expr.annotations@),
            parts: part_views(expr.clobs@),
        }),
{
    Ok(IExpr::Clob(expr.clone()))
}

fn visit_ast_multiline_string(expr: &MultilineStringData) -> (out: Result<IExpr, Error>)
    ensures
        out matches Ok(e) && e@ == Node::MultilineString(expr@),
{
    Ok(IExpr::MultilineString(expr.clone()))
}

fn visit_ast_list(expr: &ast::ListData) -> (out: Result<IExpr, Error>)
    ensures
        agrees_on(node_of(out), lowered(Node::List(expr@))),
    decreases expr, 0int,
{
    match visit_ast_exprs(&expr.items) {
        Ok(items) => Ok(
            IExpr::List(ListData::new(expr.span, copy_strings(&expr.annotations), items)),
        ),
        Err(error) => Err(error),
    }
}

fn visit_ast_sexpr(expr: &ast::ListData) -> (out: Result<IExpr, Error>)
    ensures
        agrees_on(node_of(out), lowered(Node::SExpr(expr@))),
    decreases expr, 0int,
{
    match visit_ast_exprs(&expr.items) {
        Ok(items) => Ok(
            IExpr::SExpr(ListData::new(expr.span, copy_strings(&expr.annotations), items)),
        ),
        Err(error) => Err(error),
    }
}

} // verus!
