//! Laws of reading a KiCad tree: the children of an entry named `name` are
//! its entries with that head, in order; its child `name` is the first of
//! them; its arguments are its entries by position; texts and points are read
//! from the entries that hold them, in order.

use vstd::prelude::*;

use super::sexpr::{
    children_upto, first_child_index, node_point, number_of, points_upto, spec_argument,
    spec_arguments_text, spec_child, spec_child_xy_points, spec_children, spec_entries, spec_head,
    spec_text, texts_upto, SpecSExpr,
};

verus! {

/// An entry has the head `name`.
pub open spec fn headed(name: Seq<char>) -> spec_fn(SpecSExpr) -> bool {
    |x: SpecSExpr| spec_head(x) == Some(name)
}

proof fn lemma_children_upto(items: Seq<SpecSExpr>, name: Seq<char>, n: int)
    requires
        1 <= n <= items.len(),
    ensures
        children_upto(items, name, n) == items.subrange(1, n).filter(headed(name)),
        first_child_index(items, name, n) is None <==> children_upto(items, name, n).len() == 0,
        first_child_index(items, name, n) matches Some(i) ==> items[i] == children_upto(
            items,
            name,
            n,
        )[0],
    decreases n,
{
    reveal(Seq::filter);
    let s = items.subrange(1, n);
    if n == 1 {
        assert(s.len() == 0);
    } else {
        lemma_children_upto(items, name, n - 1);
        assert(s.drop_last() =~= items.subrange(1, n - 1));
        assert(s.last() == items[n - 1]);
        let prev = children_upto(items, name, n - 1);
        if first_child_index(items, name, n - 1) is Some {
            if spec_head(items[n - 1]) == Some(name) {
                assert(children_upto(items, name, n)[0] == prev[0]);
            } else {
                assert(children_upto(items, name, n) =~= prev);
            }
        } else if spec_head(items[n - 1]) == Some(name) {
            assert(children_upto(items, name, n) =~= prev + seq![items[n - 1]]);
            assert(children_upto(items, name, n)[0] == items[n - 1]);
        } else {
            assert(children_upto(items, name, n) =~= prev);
        }
    }
}

/// The children `name` of a tree are its entries (after its head) whose own
/// head is `name`, in order; its child `name` is the first of them, and it has
/// none where there are none.
pub proof fn lemma_children_read(v: SpecSExpr, name: Seq<char>)
    ensures
        spec_children(v, name) == spec_entries(v).filter(headed(name)),
        spec_child(v, name) is None <==> spec_children(v, name).len() == 0,
        spec_child(v, name) is Some ==> spec_child(v, name) == Some(spec_children(v, name)[0]),
{
    reveal(Seq::filter);
    match v {
        SpecSExpr::List(items) => {
            if items.len() > 0 {
                lemma_children_upto(items, name, items.len() as int);
                assert(spec_entries(v) =~= items.subrange(1, items.len() as int));
            } else {
                assert(spec_entries(v).len() == 0);
                assert(spec_children(v, name) == Seq::<SpecSExpr>::empty());
            }
        },
        _ => {
            assert(spec_entries(v).len() == 0);
        },
    }
}

/// The `index`-th argument of a tree is its entry at that position after its
/// head, where it has one.
pub proof fn lemma_argument_read(v: SpecSExpr, index: int)
    ensures
        0 <= index < spec_entries(v).len() ==> spec_argument(v, index) == Some(spec_entries(v)[index]),
        !(0 <= index < spec_entries(v).len()) ==> spec_argument(v, index) is None,
{
}

proof fn lemma_texts_upto(items: Seq<SpecSExpr>, n: int)
    requires
        1 <= n <= items.len(),
    ensures
        texts_upto(items, n) == items.subrange(1, n).filter_map(|x: SpecSExpr| spec_text(x)),
    decreases n,
{
    let s = items.subrange(1, n);
    if n > 1 {
        lemma_texts_upto(items, n - 1);
        assert(s.drop_last() =~= items.subrange(1, n - 1));
        assert(s.last() == items[n - 1]);
    }
}

/// The texts of the arguments of a tree are the texts of its entries that
/// are strings or symbols, in order; other entries give none.
pub proof fn lemma_arguments_text_read(v: SpecSExpr)
    ensures
        spec_arguments_text(v) == spec_entries(v).filter_map(|x: SpecSExpr| spec_text(x)),
{
    match v {
        SpecSExpr::List(items) => {
            if items.len() > 0 {
                lemma_texts_upto(items, items.len() as int);
                assert(spec_entries(v) =~= items.subrange(1, items.len() as int));
            } else {
                assert(spec_arguments_text(v) =~= Seq::<Seq<char>>::empty());
            }
        },
        _ => {},
    }
}

proof fn lemma_points_upto(nodes: Seq<SpecSExpr>, n: int)
    requires
        0 <= n <= nodes.len(),
    ensures
        points_upto(nodes, n) == nodes.take(n).filter_map(|x: SpecSExpr| node_point(x)),
    decreases n,
{
    if n > 0 {
        lemma_points_upto(nodes, n - 1);
        assert(nodes.take(n).drop_last() =~= nodes.take(n - 1));
    }
}

/// The points of the child `name` of a tree are those of its `xy` entries
/// whose first two arguments are numbers, in order; the others give none.
pub proof fn lemma_xy_points_read(v: SpecSExpr, name: Seq<char>)
    ensures
        spec_child(v, name) is None ==> spec_child_xy_points(v, name).len() == 0,
        spec_child(v, name) is Some ==> spec_child_xy_points(v, name) == spec_children(
            spec_child(v, name)->0,
            "xy"@,
        ).filter_map(|x: SpecSExpr| node_point(x)),
        forall|node: SpecSExpr|
            #[trigger] node_point(node) is Some <==> (number_of(spec_argument(node, 0)) is Some
                && number_of(spec_argument(node, 1)) is Some),
        forall|node: SpecSExpr|
            #[trigger] node_point(node) is Some ==> node_point(node)->0.x_mm == number_of(
                spec_argument(node, 0),
            )->0 && node_point(node)->0.y_mm == number_of(spec_argument(node, 1))->0,
{
    if spec_child(v, name) is Some {
        let xs = spec_children(spec_child(v, name)->0, "xy"@);
        lemma_points_upto(xs, xs.len() as int);
        assert(xs.take(xs.len() as int) =~= xs);
    }
}

} // verus!
