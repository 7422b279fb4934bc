//! The fix-up pass: normalises where newline runs stand inside lists, s-expressions and
//! structs.
use crate::ast::{copy_strings, NewlinesData};
use crate::ist::{lemma_node_views, node_views, IExpr, IntermediateSyntaxTree, ListData};
use crate::model::{Breaks, Compound, Node};
use vstd::prelude::*;

verus! {

/// Every item is a newline run.
pub open spec fn all_newlines(items: Seq<Node>) -> bool {
    forall|i: int| 0 <= i < items.len() ==> (#[trigger] items[i]).is_newlines()
}

/// Some item is neither a comment nor a newline run.
pub open spec fn has_values(items: Seq<Node>) -> bool {
    exists|i: int| 0 <= i < items.len() && (#[trigger] items[i]).is_not_comment_or_newlines()
}

/// `items`, or nothing if `items` holds newline runs only.
pub open spec fn cleared(items: Seq<Node>) -> Seq<Node> {
    if all_newlines(items) {
        items.take(0)
    } else {
        items
    }
}

/// `items` without a newline run at its start.
pub open spec fn without_leading_break(items: Seq<Node>) -> Seq<Node> {
    if items.len() > 0 && items[0].is_newlines() {
        items.drop_first()
    } else {
        items
    }
}

/// `items` without a newline run at its end, unless a line comment stands before it.
pub open spec fn without_trailing_break(items: Seq<Node>) -> Seq<Node> {
    if items.len() >= 2 && !items[items.len() - 2].is_comment_line() && items.last().is_newlines() {
        items.drop_last()
    } else {
        items
    }
}

/// `items` without a newline run at its start, and without one at its end that follows
/// no line comment.
pub open spec fn trimmed(items: Seq<Node>) -> Seq<Node> {
    without_trailing_break(without_leading_break(items))
}

/// A form with these children starts its body on a new line: it has a value and its
/// first child is a newline run.
pub open spec fn opens_with_break(items: Seq<Node>) -> bool {
    has_values(items) && items[0].is_newlines()
}

/// The children that the pass keeps of a form. For a form that stands inside another
/// one (`inner`), the children are trimmed once more beforehand.
pub open spec fn kept_items(items: Seq<Node>, inner: bool) -> Seq<Node> {
    trimmed(cleared(if inner {
        trimmed(items)
    } else {
        items
    }))
}

/// `sub` is a contiguous part of `items`.
pub open spec fn is_part_of(sub: Seq<Node>, items: Seq<Node>) -> bool {
    exists|lo: int, hi: int| 0 <= lo <= hi <= items.len() && sub == #[trigger] items.subrange(lo, hi)
}

/// Trimming keeps a contiguous part.
pub proof fn lemma_trimmed_part(sub: Seq<Node>, items: Seq<Node>)
    requires
        is_part_of(sub, items),
    ensures
        is_part_of(trimmed(sub), items),
        is_part_of(cleared(sub), items),
{
    let (lo, hi) = choose|lo: int, hi: int|
        0 <= lo <= hi <= items.len() && sub == #[trigger] items.subrange(lo, hi);
    let a = without_leading_break(sub);
    let lo1 = if a.len() < sub.len() {
        lo + 1
    } else {
        lo
    };
    assert(a =~= items.subrange(lo1, hi));
    let b = without_trailing_break(a);
    let hi1 = if b.len() < a.len() {
        hi - 1
    } else {
        hi
    };
    assert(b =~= items.subrange(lo1, hi1));
    assert(sub.take(0) =~= items.subrange(lo, lo));
}

/// What the pass keeps of the children of a form is a contiguous part of them.
pub proof fn lemma_kept_part(items: Seq<Node>, inner: bool)
    ensures
        is_part_of(kept_items(items, inner), items),
{
    assert(items =~= items.subrange(0, items.len() as int));
    lemma_trimmed_part(items, items);
    let start = if inner {
        trimmed(items)
    } else {
        items
    };
    lemma_trimmed_part(start, items);
    lemma_trimmed_part(cleared(start), items);
}

/// The children of a form as the pass leaves them. For a form that stands inside
/// another one (`inner`), the children are trimmed once more beforehand.
pub open spec fn fixed_items(items: Seq<Node>, inner: bool) -> Seq<Node>
    decreases items, items.len() + 1,
{
    let kept = kept_items(items, inner);
    proof {
        lemma_kept_part(items, inner);
        let (lo, hi) = choose|lo: int, hi: int|
            0 <= lo <= hi <= items.len() && kept == #[trigger] items.subrange(lo, hi);
        if hi - lo == items.len() {
            assert(kept =~= items);
        }
    }
    fixed_children(kept, kept.len() as int)
}

/// The first `k` of `items` as the pass leaves them: each nested form is fixed, and a
/// single newline is put before one that opens with a break, unless it is the first
/// child or a newline run stands before it already.
pub open spec fn fixed_children(items: Seq<Node>, k: int) -> Seq<Node>
    decreases items, k,
{
    if k <= 0 || k > items.len() {
        Seq::empty()
    } else {
        fixed_children(items, k - 1) + separator(items, k - 1) + seq![
            fixed_node(items[k - 1], true),
        ]
    }
}

/// A node as the pass leaves it; `inner` says that it stands inside another form.
pub open spec fn fixed_node(n: Node, inner: bool) -> Node
    decreases n, 0int,
{
    match n {
        Node::List(c) => Node::List(Compound { items: fixed_items(c.items, inner), ..c }),
        Node::SExpr(c) => Node::SExpr(Compound { items: fixed_items(c.items, inner), ..c }),
        Node::Struct(c) => Node::Struct(Compound { items: fixed_items(c.items, inner), ..c }),
        other => other,
    }
}

/// The newline run that the pass puts before the nested form `items[i]`, if any.
pub open spec fn separator(items: Seq<Node>, i: int) -> Seq<Node> {
    if i > 0 && !items[i - 1].is_newlines() && items[i].is_compound() && opens_with_break(
        items[i].items(),
    ) {
        seq![Node::Newlines(Breaks { span: items[i].span(), count: 1 })]
    } else {
        Seq::empty()
    }
}

/// A top-level node as the pass leaves it.
pub open spec fn fixed(n: Node) -> Node {
    fixed_node(n, false)
}

/// A whole tree as the pass leaves it.
pub open spec fn fixed_tree(nodes: Seq<Node>) -> Seq<Node> {
    nodes.map_values(|n: Node| fixed(n))
}


/// Whether `items[lo..hi]` holds newline runs only.
fn only_newlines(items: &Vec<IExpr>, lo: usize, hi: usize) -> (b: bool)
    requires
        lo <= hi <= items.len(),
    ensures
        b == all_newlines(node_views(items@).subrange(lo as int, hi as int)),
{
    broadcast use lemma_node_views;

    let ghost part = node_views(items@).subrange(lo as int, hi as int);
    let mut i: usize = lo;
    while i < hi
        invariant
            lo <= i <= hi <= items.len(),
            part == node_views(items@).subrange(lo as int, hi as int),
            forall|j: int| 0 <= j < i - lo ==> (#[trigger] part[j]).is_newlines(),
        decreases hi - i,
    {
        if !items[i].is_newlines() {
            assert(!part[i - lo].is_newlines());
            return false;
        }
        i += 1;
    }
    true
}

/// Whether `items[lo..hi]` holds an item that is neither a comment nor a newline run.
fn any_value(items: &Vec<IExpr>, lo: usize, hi: usize) -> (b: bool)
    requires
        lo <= hi <= items.len(),
    ensures
        b == has_values(node_views(items@).subrange(lo as int, hi as int)),
{
    broadcast use lemma_node_views;

    let ghost part = node_views(items@).subrange(lo as int, hi as int);
    let mut i: usize = lo;
    while i < hi
        invariant
            lo <= i <= hi <= items.len(),
            part == node_views(items@).subrange(lo as int, hi as int),
            forall|j: int| 0 <= j < i - lo ==> !(#[trigger] part[j]).is_not_comment_or_newlines(),
        decreases hi - i,
    {
        if items[i].is_not_comment_or_newlines() {
            assert(part[i - lo].is_not_comment_or_newlines());
            return true;
        }
        i += 1;
    }
    false
}

/// The part of `items[lo..hi]` that stays when a form without values is emptied: nothing
/// if the part holds newline runs only, else all of it.
fn clear_empty(items: &Vec<IExpr>, lo: usize, hi: usize) -> (part: (usize, usize))
    requires
        lo <= hi <= items.len(),
    ensures
        lo <= part.0 <= part.1 <= hi,
        node_views(items@).subrange(part.0 as int, part.1 as int) == cleared(
            node_views(items@).subrange(lo as int, hi as int),
        ),
{
    broadcast use lemma_node_views;

    if only_newlines(items, lo, hi) {
        assert(node_views(items@).subrange(lo as int, lo as int) =~= node_views(items@).subrange(
            lo as int,
            hi as int,
        ).take(0));
        (lo, lo)
    } else {
        (lo, hi)
    }
}

/// The part of `items[lo..hi]` that stays when the newline run at its start and the one
/// at its end are dropped, and whether a form with these children opens with a break.
fn fixup_list(items: &Vec<IExpr>, lo: usize, hi: usize) -> (part: (usize, usize, bool))
    requires
        lo <= hi <= items.len(),
    ensures
        lo <= part.0 <= part.1 <= hi,
        node_views(items@).subrange(part.0 as int, part.1 as int) == trimmed(
            node_views(items@).subrange(lo as int, hi as int),
        ),
        part.2 == opens_with_break(node_views(items@).subrange(lo as int, hi as int)),
{
    broadcast use lemma_node_views;

    let ghost all = node_views(items@);
    let has_values = any_value(items, lo, hi);
    let starts_with_break = lo < hi && items[lo].is_newlines();
    let should_add_preceding_newline = has_values && starts_with_break;
    // Drop the newline run at the start
    let from = if starts_with_break {
        lo + 1
    } else {
        lo
    };
    assert(all.subrange(from as int, hi as int) =~= without_leading_break(
        all.subrange(lo as int, hi as int),
    ));
    // Drop the newline run at the end unless a line comment stands before it
    let to = if hi - from >= 2 && !items[hi - 2].is_comment_line() && items[hi - 1].is_newlines() {
        hi - 1
    } else {
        hi
    };
    assert(all.subrange(from as int, to as int) =~= without_trailing_break(
        all.subrange(from as int, hi as int),
    ));
    (from, to, should_add_preceding_newline)
}

/// The part of `items` that the pass keeps.
fn kept_part(items: &Vec<IExpr>, inner: bool) -> (part: (usize, usize))
    ensures
        part.0 <= part.1 <= items.len(),
        node_views(items@).subrange(part.0 as int, part.1 as int) == kept_items(
            node_views(items@),
            inner,
        ),
{
    broadcast use lemma_node_views;

    let ghost all = node_views(items@);
    assert(all.subrange(0, items.len() as int) =~= all);
    let start = if inner {
        let part = fixup_list(items, 0, items.len());
        (part.0, part.1)
    } else {
        (0, items.len())
    };
    let cleared = clear_empty(items, start.0, start.1);
    let part = fixup_list(items, cleared.0, cleared.1);
    (part.0, part.1)
}

/// The children of a form as the pass leaves them.
fn fixup_items(items: &Vec<IExpr>, inner: bool) -> (out: Vec<IExpr>)
    ensures
        node_views(out@) == fixed_items(node_views(items@), inner),
    decreases items, 1int,
{
    broadcast use lemma_node_views;

    let ghost all = node_views(items@);
    let (lo, hi) = kept_part(items, inner);
    let ghost kept = all.subrange(lo as int, hi as int);
    let mut out: Vec<IExpr> = Vec::new();
    let mut i: usize = lo;
    while i < hi
        invariant
            lo <= i <= hi <= items.len(),
            all == node_views(items@),
            all.len() == items.len(),
            forall|j: int| 0 <= j < items.len() ==> all[j] == items[j]@,
            kept == all.subrange(lo as int, hi as int),
            node_views(out@) == fixed_children(kept, i - lo),
        decreases hi - i,
    {
        let child = &items[i];
        let ghost before = node_views(out@);
        assert(kept[i - lo] == child@);
        let last_is_newlines = i == lo || items[i - 1].is_newlines();
        if !last_is_newlines && opens_with_newline(child) {
            out.push(IExpr::Newlines(NewlinesData::new(child.span(), 1)));
        }
        let ghost middle = node_views(out@);
        assert(middle =~= before + separator(kept, i - lo));
        let fixed = fixup_expr(child, true);
        out.push(fixed);
        assert(node_views(out@) =~= middle + seq![fixed@]);
        i += 1;
    }
    out
}

/// Whether `expr` is a form that opens with a break.
fn opens_with_newline(expr: &IExpr) -> (b: bool)
    ensures
        b == (expr@.is_compound() && opens_with_break(expr@.items())),
{
    broadcast use lemma_node_views;

    match expr {
        IExpr::List(data) | IExpr::SExpr(data) | IExpr::Struct(data) => {
            assert(node_views(data.items@).subrange(0, data.items.len() as int) =~= node_views(
                data.items@,
            ));
            fixup_list(&data.items, 0, data.items.len()).2
        },
        _ => false,
    }
}

/// A node as the pass leaves it; `inner` says that it stands inside another form.
fn fixup_expr(expr: &IExpr, inner: bool) -> (out: IExpr)
    ensures
        out@ == fixed_node(expr@, inner),
    decreases expr, 0int,
{
    match expr {
        IExpr::List(data) => IExpr::List(
            ListData::new(
                data.span,
                copy_strings(&data.annotations),
                fixup_items(&data.items, inner),
            ),
        ),
        IExpr::SExpr(data) => IExpr::SExpr(
            ListData::new(
                data.span,
                copy_strings(&data.annotations),
                fixup_items(&data.items, inner),
            ),
        ),
        IExpr::Struct(data) => IExpr::Struct(
            ListData::new(
                data.span,
                copy_strings(&data.annotations),
                fixup_items(&data.items, inner),
            ),
        ),
        other => other.clone(),
    }
}

/// The top-level forms as the pass leaves them.
pub fn fixup_ast(ast: &Vec<IExpr>) -> (out: Vec<IExpr>)
    ensures
        node_views(out@) == fixed_tree(node_views(ast@)),
{
    broadcast use lemma_node_views;

    let mut out: Vec<IExpr> = Vec::new();
    let mut i: usize = 0;
    while i < ast.len()
        invariant
            i <= ast.len(),
            out.len() == i,
            forall|j: int| 0 <= j < i ==> out[j]@ == fixed(ast[j]@),
        decreases ast.len() - i,
    {
        out.push(fixup_expr(&ast[i], false));
        i += 1;
    }
    assert(node_views(out@) =~= fixed_tree(node_views(ast@)));
    out
}

/// The tree as the pass leaves it.
pub fn fixup_ist(ist: &IntermediateSyntaxTree) -> (out: IntermediateSyntaxTree)
    ensures
        out@ == fixed_tree(ist@),
{
    IntermediateSyntaxTree::new(fixup_ast(&ist.expressions))
}


/// Newline runs stand in order: one directly follows another only where a line comment
/// stands before the two.
pub open spec fn breaks_in_order(items: Seq<Node>) -> bool {
    forall|i: int|
        0 <= i < items.len() - 1 && (#[trigger] items[i]).is_newlines() && items[i
            + 1].is_newlines() ==> i >= 1 && items[i - 1].is_comment_line()
}

/// The children of a form are well-formed: newline runs stand in order, here and in every
/// form below.
pub open spec fn well_formed_items(items: Seq<Node>) -> bool
    decreases items,
{
    &&& breaks_in_order(items)
    &&& forall|i: int| 0 <= i < items.len() ==> well_formed(#[trigger] items[i])
}

/// A node is well-formed: in every form in it, newline runs stand in order.
pub open spec fn well_formed(n: Node) -> bool
    decreases n,
{
    match n {
        Node::List(c) => well_formed_items(c.items),
        Node::SExpr(c) => well_formed_items(c.items),
        Node::Struct(c) => well_formed_items(c.items),
        _ => true,
    }
}

/// The children of a form are as the pass leaves them: no newline run at the start, none
/// at the end but after a line comment, and the same in every form below.
pub open spec fn settled_items(items: Seq<Node>) -> bool
    decreases items,
{
    &&& items.len() > 0 ==> !items[0].is_newlines()
    &&& !(items.len() >= 2 && items.last().is_newlines() && !items[items.len()
        - 2].is_comment_line())
    &&& forall|i: int| 0 <= i < items.len() ==> settled(#[trigger] items[i])
}

/// A node is as the pass leaves it.
pub open spec fn settled(n: Node) -> bool
    decreases n,
{
    match n {
        Node::List(c) => settled_items(c.items),
        Node::SExpr(c) => settled_items(c.items),
        Node::Struct(c) => settled_items(c.items),
        _ => true,
    }
}

/// The pass changes nothing in children that are settled.
pub proof fn lemma_settled_items_stay(items: Seq<Node>, inner: bool)
    requires
        settled_items(items),
    ensures
        fixed_items(items, inner) == items,
    decreases items, items.len() + 1,
{
    assert(trimmed(items) == items);
    if all_newlines(items) {
        assert(items.len() == 0) by {
            if items.len() > 0 {
                assert(items[0].is_newlines());
            }
        }
        assert(items.take(0) =~= items);
    }
    assert(cleared(items) == items);
    assert(kept_items(items, inner) == items);
    lemma_settled_children_stay(items, items.len() as int);
    assert(items.take(items.len() as int) =~= items);
}

/// The pass changes nothing in the first `k` of children that are settled.
pub proof fn lemma_settled_children_stay(items: Seq<Node>, k: int)
    requires
        settled_items(items),
        0 <= k <= items.len(),
    ensures
        fixed_children(items, k) == items.take(k),
    decreases items, k,
{
    if k > 0 {
        lemma_settled_children_stay(items, k - 1);
        let child = items[k - 1];
        assert(settled(child));
        lemma_settled_stays(child, true);
        if child.is_compound() && opens_with_break(child.items()) {
            assert(child.items()[0].is_newlines());
            assert(false);
        }
        assert(separator(items, k - 1) =~= Seq::<Node>::empty());
        assert(items.take(k) =~= items.take(k - 1) + separator(items, k - 1) + seq![child]);
    } else {
        assert(items.take(0) =~= Seq::<Node>::empty());
    }
}

/// The pass changes nothing in a node that is settled.
pub proof fn lemma_settled_stays(n: Node, inner: bool)
    requires
        settled(n),
    ensures
        fixed_node(n, inner) == n,
    decreases n, 0int,
{
    match n {
        Node::List(c) => lemma_settled_items_stay(c.items, inner),
        Node::SExpr(c) => lemma_settled_items_stay(c.items, inner),
        Node::Struct(c) => lemma_settled_items_stay(c.items, inner),
        _ => {},
    }
}

/// Trimming well-formed children leaves no newline run at the start and none at the end
/// but after a line comment, and the result is well-formed.
pub proof fn lemma_trimmed_shape(items: Seq<Node>)
    requires
        well_formed_items(items),
    ensures
        well_formed_items(trimmed(items)),
        trimmed(items).len() > 0 ==> !trimmed(items)[0].is_newlines(),
        !(trimmed(items).len() >= 2 && trimmed(items).last().is_newlines() && !trimmed(
            items,
        )[trimmed(items).len() - 2].is_comment_line()),
        trimmed(trimmed(items)) == trimmed(items),
{
    let a = without_leading_break(items);
    let b = without_trailing_break(a);
    if a.len() < items.len() {
        assert(items[0].is_newlines());
        if a.len() > 0 && a[0].is_newlines() {
            assert(items[1].is_newlines());
            assert(false);
        }
        assert forall|i: int|
            0 <= i < a.len() - 1 && (#[trigger] a[i]).is_newlines() && a[i + 1].is_newlines() implies i
            >= 1 && a[i - 1].is_comment_line() by {
            assert(items[i + 1].is_newlines());
        }
        assert forall|i: int| 0 <= i < a.len() implies well_formed(#[trigger] a[i]) by {
            assert(a[i] == items[i + 1]);
        }
    }
    assert(well_formed_items(a));
    assert(a.len() > 0 ==> !a[0].is_newlines());
    if b.len() < a.len() {
        let n = a.len() as int;
        assert forall|i: int|
            0 <= i < b.len() - 1 && (#[trigger] b[i]).is_newlines() && b[i + 1].is_newlines() implies i
            >= 1 && b[i - 1].is_comment_line() by {
            assert(a[i].is_newlines());
        }
        assert forall|i: int| 0 <= i < b.len() implies well_formed(#[trigger] b[i]) by {
            assert(b[i] == a[i]);
        }
        if b.len() >= 2 && b.last().is_newlines() {
            assert(a[n - 2].is_newlines());
            assert(a[n - 3].is_comment_line());
        }
    }
    assert(without_leading_break(b) == b);
    assert(without_trailing_break(b) == b);
}

/// What the pass keeps of well-formed children is well-formed and has no newline run at
/// the start and none at the end but after a line comment.
pub proof fn lemma_kept_shape(items: Seq<Node>, inner: bool)
    requires
        well_formed_items(items),
    ensures
        well_formed_items(kept_items(items, inner)),
        kept_items(items, inner).len() > 0 ==> !kept_items(items, inner)[0].is_newlines(),
        !(kept_items(items, inner).len() >= 2 && kept_items(items, inner).last().is_newlines()
            && !kept_items(items, inner)[kept_items(items, inner).len() - 2].is_comment_line()),
{
    lemma_trimmed_shape(items);
    let start = if inner {
        trimmed(items)
    } else {
        items
    };
    let c = cleared(start);
    if all_newlines(start) {
        assert(c.len() == 0);
        assert(well_formed_items(c));
    }
    lemma_trimmed_shape(c);
}

/// The first `k` of well-formed children as the pass leaves them: at least `k` nodes
/// that are settled, where the first is of the kind of the first child and the last of
/// the kind of child `k - 1`, and the node before a newline run at the end is of the kind
/// of child `k - 2`.
pub proof fn lemma_fixed_children_shape(items: Seq<Node>, k: int)
    requires
        well_formed_items(items),
        0 <= k <= items.len(),
    ensures
        fixed_children(items, k).len() >= k,
        forall|i: int|
            0 <= i < fixed_children(items, k).len() ==> settled(
                #[trigger] fixed_children(items, k)[i],
            ),
        k > 0 ==> fixed_children(items, k)[0].is_newlines() == items[0].is_newlines(),
        k > 0 ==> fixed_children(items, k).last().is_newlines() == items[k - 1].is_newlines(),
        k > 0 ==> fixed_children(items, k).last().is_comment_line() == items[k
            - 1].is_comment_line(),
        k >= 2 && items[k - 1].is_newlines() ==> fixed_children(items, k).len() >= 2
            && fixed_children(items, k)[fixed_children(items, k).len() - 2].is_comment_line()
            == items[k - 2].is_comment_line(),
    decreases items, k,
{
    if k > 0 {
        lemma_fixed_children_shape(items, k - 1);
        let front = fixed_children(items, k - 1);
        let sep = separator(items, k - 1);
        let child = items[k - 1];
        assert(well_formed(child));
        lemma_fixed_settled(child, true);
        let all = fixed_children(items, k);
        assert(all == front + sep + seq![fixed_node(child, true)]);
        assert forall|i: int| 0 <= i < all.len() implies settled(#[trigger] all[i]) by {
            if i < front.len() {
                assert(all[i] == front[i]);
            } else if i < front.len() + sep.len() {
                assert(all[i] == sep[i - front.len()]);
            }
        }
        if k == 1 {
            assert(sep.len() == 0);
        } else {
            assert(all[0] == front[0]);
        }
        if k >= 2 && child.is_newlines() {
            assert(sep.len() == 0);
            assert(all[all.len() - 2] == front.last());
        }
    }
}

/// What the pass keeps of the children of a form is all of them or a smaller part.
pub proof fn lemma_kept_smaller(items: Seq<Node>, inner: bool)
    ensures
        kept_items(items, inner) == items || decreases_to!(items => kept_items(items, inner)),
{
    let kept = kept_items(items, inner);
    lemma_kept_part(items, inner);
    let (lo, hi) = choose|lo: int, hi: int|
        0 <= lo <= hi <= items.len() && kept == #[trigger] items.subrange(lo, hi);
    if hi - lo == items.len() {
        assert(kept =~= items);
    }
}

/// The pass leaves well-formed children settled.
pub proof fn lemma_fixed_items_settled(items: Seq<Node>, inner: bool)
    requires
        well_formed_items(items),
    ensures
        settled_items(fixed_items(items, inner)),
    decreases items, items.len() + 1,
{
    let kept = kept_items(items, inner);
    lemma_kept_shape(items, inner);
    lemma_kept_smaller(items, inner);
    lemma_fixed_children_shape(kept, kept.len() as int);
}

/// The pass leaves a well-formed node settled.
pub proof fn lemma_fixed_settled(n: Node, inner: bool)
    requires
        well_formed(n),
    ensures
        settled(fixed_node(n, inner)),
    decreases n, 0int,
{
    match n {
        Node::List(c) => lemma_fixed_items_settled(c.items, inner),
        Node::SExpr(c) => lemma_fixed_items_settled(c.items, inner),
        Node::Struct(c) => lemma_fixed_items_settled(c.items, inner),
        _ => {},
    }
}

/// Running the pass twice gives what running it once gives, on every tree in which
/// newline runs stand in order.
pub proof fn lemma_fixup_idempotent(tree: Seq<Node>)
    requires
        forall|i: int| 0 <= i < tree.len() ==> well_formed(#[trigger] tree[i]),
    ensures
        fixed_tree(fixed_tree(tree)) == fixed_tree(tree),
{
    assert forall|i: int| 0 <= i < tree.len() implies fixed(fixed(#[trigger] tree[i])) == fixed(
        tree[i],
    ) by {
        lemma_fixed_settled(tree[i], false);
        lemma_settled_stays(fixed(tree[i]), false);
    }
    assert(fixed_tree(fixed_tree(tree)) =~= fixed_tree(tree));
}

} // verus!
