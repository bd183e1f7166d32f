//! The item tree as the sidebar shows it: each parent's children in order.

use vstd::prelude::*;
use crate::models::{time_le, Item, ItemView};

verus! {

/// The views of a sequence of items.
pub open spec fn views(s: Seq<Item>) -> Seq<ItemView> {
    s.map_values(|i: Item| i@)
}

/// Children are ordered by `sort_order`, then by creation time.
pub open spec fn order_le(a: ItemView, b: ItemView) -> bool {
    a.sort_order < b.sort_order || (a.sort_order == b.sort_order && time_le(a.created_at, b.created_at))
}

/// `i` is a live child of `parent` (`None`: the top level).
pub open spec fn is_child_of(i: ItemView, parent: Option<Seq<char>>) -> bool {
    !i.deleted && i.parent_id == parent
}

/// The live children of `parent` in tree order.
pub open spec fn children_in(tree: Seq<ItemView>, parent: Option<Seq<char>>) -> Seq<ItemView>
    decreases tree.len(),
{
    if tree.len() == 0 {
        seq![]
    } else if is_child_of(tree.last(), parent) {
        children_in(tree.drop_last(), parent).push(tree.last())
    } else {
        children_in(tree.drop_last(), parent)
    }
}

/// `x` put into `s` after every element that does not come after it.
pub open spec fn insert_sorted(s: Seq<ItemView>, x: ItemView) -> Seq<ItemView>
    decreases s.len(),
{
    if s.len() == 0 {
        seq![x]
    } else if !order_le(s.last(), x) {
        insert_sorted(s.drop_last(), x).push(s.last())
    } else {
        s.push(x)
    }
}

/// `s` sorted by `order_le`, keeping the order of equal elements (a stable
/// insertion sort).
pub open spec fn sort_stable(s: Seq<ItemView>) -> Seq<ItemView>
    decreases s.len(),
{
    if s.len() == 0 {
        seq![]
    } else {
        insert_sorted(sort_stable(s.drop_last()), s.last())
    }
}

/// The children of `parent` as the sidebar lists them.
pub open spec fn children_spec(tree: Seq<ItemView>, parent: Option<Seq<char>>) -> Seq<ItemView> {
    sort_stable(children_in(tree, parent))
}

/// Whether `a` comes strictly after `b` in child order.
fn comes_after(a: &Item, b: &Item) -> (r: bool)
    ensures
        r == !order_le(a@, b@),
{
    a.sort_order > b.sort_order || (a.sort_order == b.sort_order && b.created_at.before(
        &a.created_at,
    ))
}

proof fn lemma_insert_sorted_at(s: Seq<ItemView>, x: ItemView, j: int)
    requires
        0 <= j <= s.len(),
        forall|k: int| j <= k < s.len() ==> !order_le(#[trigger] s[k], x),
        j == 0 || order_le(s[j - 1], x),
    ensures
        insert_sorted(s, x) == s.insert(j, x),
    decreases s.len(),
{
    if s.len() == 0 {
        assert(s.insert(0, x) =~= seq![x]);
    } else if j == s.len() {
        assert(s.insert(j, x) =~= s.push(x));
    } else {
        assert(!order_le(s[s.len() - 1], x));
        lemma_insert_sorted_at(s.drop_last(), x, j);
        assert(s.drop_last().insert(j, x).push(s.last()) =~= s.insert(j, x));
    }
}

/// The live children of `parent_id`, ordered by `sort_order`, then creation
/// time (ties keep tree order).
pub fn children_of(tree: &Vec<Item>, parent_id: Option<&str>) -> (r: Vec<Item>)
    ensures
        views(r@) == children_spec(
            views(tree@),
            match parent_id {
                Some(p) => Some(p@),
                None => None,
            },
        ),
{
    let ghost parent = match parent_id {
        Some(p) => Some(p@),
        None => None::<Seq<char>>,
    };
    let ghost tv = views(tree@);
    let mut r: Vec<Item> = Vec::new();
    let mut i: usize = 0;
    while i < tree.len()
        invariant
            i <= tree@.len(),
            tv == views(tree@),
            parent == match parent_id {
                Some(p) => Some(p@),
                None => None::<Seq<char>>,
            },
            views(r@) == sort_stable(children_in(tv.take(i as int), parent)),
        decreases tree@.len() - i,
    {
        let it = &tree[i];
        assert(tv.take(i + 1).drop_last() == tv.take(i as int));
        assert(tv.take(i + 1).last() == it@);
        let is_child = !it.deleted && match (&it.parent_id, parent_id) {
            (Some(a), Some(b)) => crate::text::same_text(
                &crate::text::chars_of(a.as_str()),
                &crate::text::chars_of(b),
            ),
            (None, None) => true,
            _ => false,
        };
        assert(is_child == is_child_of(it@, parent));
        if is_child {
            let x = it.duplicate();
            let ghost s = views(r@);
            let mut j = r.len();
            while j > 0 && comes_after(&r[j - 1], &x)
                invariant
                    j <= r@.len(),
                    s == views(r@),
                    forall|k: int| j <= k < s.len() ==> !order_le(#[trigger] s[k], x@),
                decreases j,
            {
                assert(s[j - 1] == r@[j - 1]@);
                j -= 1;
            }
            proof {
                if j > 0 {
                    assert(s[j - 1] == r@[j - 1]@);
                }
                lemma_insert_sorted_at(s, x@, j as int);
            }
            r.insert(j, x);
            assert(views(r@) =~= s.insert(j as int, tv[i as int]));
            assert(children_in(tv.take(i + 1), parent) == children_in(tv.take(i as int), parent).push(
                tv[i as int],
            ));
            let ghost c = children_in(tv.take(i as int), parent);
            assert(c.push(tv[i as int]).drop_last() == c);
            assert(c.push(tv[i as int]).last() == tv[i as int]);
            assert(sort_stable(c.push(tv[i as int])) == insert_sorted(sort_stable(c), tv[i as int]));
        } else {
            assert(children_in(tv.take(i + 1), parent) == children_in(tv.take(i as int), parent));
        }
        i += 1;
    }
    assert(tv.take(tree@.len() as int) == tv);
    r
}

/// `s` is in child order.
pub open spec fn in_order(s: Seq<ItemView>) -> bool {
    forall|i: int, j: int| 0 <= i < j < s.len() ==> order_le(#[trigger] s[i], #[trigger] s[j])
}

proof fn lemma_insert_sorted_bounded(s: Seq<ItemView>, x: ItemView, b: ItemView)
    requires
        forall|k: int| 0 <= k < s.len() ==> order_le(#[trigger] s[k], b),
        order_le(x, b),
    ensures
        forall|k: int|
            0 <= k < insert_sorted(s, x).len() ==> order_le(#[trigger] insert_sorted(s, x)[k], b),
    decreases s.len(),
{
    if s.len() > 0 && !order_le(s.last(), x) {
        let init = s.drop_last();
        assert forall|k: int| 0 <= k < init.len() implies order_le(#[trigger] init[k], b) by {
            assert(init[k] == s[k]);
        }
        lemma_insert_sorted_bounded(init, x, b);
        let t = insert_sorted(init, x);
        assert forall|k: int| 0 <= k < t.push(s.last()).len() implies order_le(
            #[trigger] t.push(s.last())[k],
            b,
        ) by {
            if k < t.len() {
                assert(t.push(s.last())[k] == t[k]);
            } else {
                assert(s.last() == s[s.len() - 1]);
            }
        }
    } else if s.len() > 0 {
        assert forall|k: int| 0 <= k < s.push(x).len() implies order_le(#[trigger] s.push(x)[k], b) by {
            if k < s.len() {
                assert(s.push(x)[k] == s[k]);
            }
        }
    }
}

proof fn lemma_insert_sorted_in_order(s: Seq<ItemView>, x: ItemView)
    requires
        in_order(s),
    ensures
        in_order(insert_sorted(s, x)),
        insert_sorted(s, x).len() == s.len() + 1,
        insert_sorted(s, x).to_multiset() == s.to_multiset().insert(x),
    decreases s.len(),
{
    broadcast use vstd::seq_lib::group_to_multiset_ensures;

    if s.len() == 0 {
        assert(seq![x] =~= Seq::<ItemView>::empty().push(x));
    } else {
        let init = s.drop_last();
        let last = s.last();
        assert(s =~= init.push(last));
        assert forall|i: int, j: int| 0 <= i < j < init.len() implies order_le(
            #[trigger] init[i],
            #[trigger] init[j],
        ) by {
            assert(init[i] == s[i] && init[j] == s[j]);
        }
        if !order_le(last, x) {
            lemma_insert_sorted_in_order(init, x);
            assert forall|k: int| 0 <= k < init.len() implies order_le(#[trigger] init[k], last) by {
                assert(init[k] == s[k]);
                assert(last == s[s.len() - 1]);
            }
            lemma_insert_sorted_bounded(init, x, last);
            let t = insert_sorted(init, x);
            assert forall|i: int, j: int| 0 <= i < j < t.push(last).len() implies order_le(
                #[trigger] t.push(last)[i],
                #[trigger] t.push(last)[j],
            ) by {
                assert(t.push(last)[i] == t[i]);
                if j < t.len() {
                    assert(t.push(last)[j] == t[j]);
                }
            }
        } else {
            assert forall|i: int, j: int| 0 <= i < j < s.push(x).len() implies order_le(
                #[trigger] s.push(x)[i],
                #[trigger] s.push(x)[j],
            ) by {
                assert(s.push(x)[i] == s[i]);
                if j < s.len() {
                    assert(s.push(x)[j] == s[j]);
                } else {
                    if i < s.len() - 1 {
                        assert(order_le(s[i], s[s.len() - 1]));
                    }
                }
            }
        }
    }
}

proof fn lemma_sort_stable(s: Seq<ItemView>)
    ensures
        in_order(sort_stable(s)),
        sort_stable(s).to_multiset() == s.to_multiset(),
    decreases s.len(),
{
    broadcast use vstd::seq_lib::group_to_multiset_ensures;

    if s.len() > 0 {
        lemma_sort_stable(s.drop_last());
        lemma_insert_sorted_in_order(sort_stable(s.drop_last()), s.last());
        assert(s =~= s.drop_last().push(s.last()));
    } else {
        assert(s.to_multiset() =~= Seq::<ItemView>::empty().to_multiset());
    }
}

proof fn lemma_children_in_members(tree: Seq<ItemView>, parent: Option<Seq<char>>)
    ensures
        forall|x: ItemView|
            children_in(tree, parent).contains(x) <==> tree.contains(x) && is_child_of(x, parent),
    decreases tree.len(),
{
    if tree.len() > 0 {
        let init = tree.drop_last();
        lemma_children_in_members(init, parent);
        assert(tree =~= init.push(tree.last()));
        let c = children_in(init, parent);
        assert forall|x: ItemView|
            children_in(tree, parent).contains(x) <==> tree.contains(x) && is_child_of(
                x,
                parent,
            ) by {
            if is_child_of(tree.last(), parent) {
                if c.push(tree.last()).contains(x) {
                    let k = choose|k: int| 0 <= k < c.len() + 1 && c.push(tree.last())[k] == x;
                    if k < c.len() {
                        assert(c[k] == x);
                        assert(c.contains(x));
                        assert(init.contains(x));
                        let m = choose|m: int| 0 <= m < init.len() && init[m] == x;
                        assert(tree[m] == x);
                    } else {
                        assert(tree[tree.len() - 1] == x);
                    }
                }
                if tree.contains(x) && is_child_of(x, parent) {
                    let k = choose|k: int| 0 <= k < tree.len() && tree[k] == x;
                    if k < init.len() {
                        assert(init[k] == x);
                        assert(init.contains(x));
                        let m = choose|m: int| 0 <= m < c.len() && c[m] == x;
                        assert(c.push(tree.last())[m] == x);
                    } else {
                        assert(c.push(tree.last())[c.len() as int] == x);
                    }
                }
            } else {
                if c.contains(x) {
                    assert(init.contains(x));
                    let m = choose|m: int| 0 <= m < init.len() && init[m] == x;
                    assert(tree[m] == x);
                }
                if tree.contains(x) && is_child_of(x, parent) {
                    let k = choose|k: int| 0 <= k < tree.len() && tree[k] == x;
                    if k < init.len() {
                        assert(init[k] == x);
                        assert(init.contains(x));
                    }
                }
            }
        }
    }
}

/// The sidebar lists a parent's children in order: by `sort_order`, then by
/// creation time; each live child of the parent appears (as often as in the
/// tree) and nothing else does.
pub proof fn lemma_children_order(tree: Seq<ItemView>, parent: Option<Seq<char>>)
    ensures
        in_order(children_spec(tree, parent)),
        children_spec(tree, parent).to_multiset() == children_in(tree, parent).to_multiset(),
        forall|x: ItemView|
            children_spec(tree, parent).contains(x) <==> tree.contains(x) && is_child_of(x, parent),
{
    broadcast use vstd::seq_lib::group_to_multiset_ensures;

    lemma_sort_stable(children_in(tree, parent));
    lemma_children_in_members(tree, parent);
    let c = children_in(tree, parent);
    let r = children_spec(tree, parent);
    assert forall|x: ItemView| r.contains(x) <==> c.contains(x) by {
        assert(r.contains(x) <==> r.to_multiset().count(x) > 0);
        assert(c.contains(x) <==> c.to_multiset().count(x) > 0);
    }
}

/// The elements of `s` that satisfy `p`, in order.
pub open spec fn keep_where(s: Seq<ItemView>, p: spec_fn(ItemView) -> bool) -> Seq<ItemView>
    decreases s.len(),
{
    if s.len() == 0 {
        seq![]
    } else if p(s.last()) {
        keep_where(s.drop_last(), p).push(s.last())
    } else {
        keep_where(s.drop_last(), p)
    }
}

/// A test on items, decided in code as a predicate on their views states.
pub trait ItemTest {
    /// Whether the test accepts an item with view `v`.
    spec fn accepts(&self, v: ItemView) -> bool;

    /// Runs the test on `i`.
    fn test(&self, i: &Item) -> (b: bool)
        ensures
            b == self.accepts(i@),
    ;
}

/// Copies of the items of `items` that `t` accepts, in order.
pub fn select<T: ItemTest>(items: &Vec<Item>, t: &T) -> (r: Vec<Item>)
    ensures
        views(r@) == keep_where(views(items@), |v: ItemView| t.accepts(v)),
{
    let ghost all = views(items@);
    let ghost p = |v: ItemView| t.accepts(v);
    let mut r: Vec<Item> = Vec::new();
    let mut i: usize = 0;
    while i < items.len()
        invariant
            i <= items@.len(),
            all == views(items@),
            p == |v: ItemView| t.accepts(v),
            views(r@) == keep_where(all.take(i as int), p),
        decreases items@.len() - i,
    {
        assert(all.take(i + 1).drop_last() == all.take(i as int));
        assert(all.take(i + 1).last() == items@[i as int]@);
        if t.test(&items[i]) {
            let ghost before = views(r@);
            r.push(items[i].duplicate());
            assert(views(r@) == before.push(items@[i as int]@));
        }
        i += 1;
    }
    assert(all.take(items@.len() as int) == all);
    r
}

} // verus!
