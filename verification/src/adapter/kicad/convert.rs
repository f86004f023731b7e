//! Conversion of a list of KiCad entries into canonical objects, stopping at
//! the first entry that cannot be converted.

use vstd::prelude::*;

use super::sexpr::{tree_refs, SExpr, SpecSExpr};
use crate::adapter::error::{result_view, AdapterError, SpecAdapterError};

verus! {

/// A canonical object that one KiCad entry converts into. Conversion may use
/// the file path and the ordinals of the board's nets.
pub trait FromNode: Sized + View {
    spec fn spec_from_node(node: SpecSExpr, path: Seq<char>, ordinals: Seq<i64>) -> Result<
        Self::V,
        SpecAdapterError,
    >;

    fn from_node(node: &SExpr, path: &str, ordinals: &Vec<i64>) -> (r: Result<Self, AdapterError>)
        ensures
            result_view(r) == Self::spec_from_node(node@, path@, ordinals@),
    ;
}

/// The objects that `nodes[..n]` convert into, or the first error.
pub open spec fn converted_upto<T: FromNode>(
    nodes: Seq<SpecSExpr>,
    path: Seq<char>,
    ordinals: Seq<i64>,
    n: int,
) -> Result<Seq<T::V>, SpecAdapterError>
    decreases n,
{
    if n <= 0 {
        Ok(seq![])
    } else {
        match converted_upto::<T>(nodes, path, ordinals, n - 1) {
            Err(e) => Err(e),
            Ok(items) => match T::spec_from_node(nodes[n - 1], path, ordinals) {
                Ok(item) => Ok(items.push(item)),
                Err(e) => Err(e),
            },
        }
    }
}

/// The objects that all of `nodes` convert into, or the first error.
pub open spec fn converted<T: FromNode>(
    nodes: Seq<SpecSExpr>,
    path: Seq<char>,
    ordinals: Seq<i64>,
) -> Result<Seq<T::V>, SpecAdapterError> {
    converted_upto::<T>(nodes, path, ordinals, nodes.len() as int)
}

pub open spec fn item_views<T: View>(items: Seq<T>) -> Seq<T::V> {
    items.map_values(|x: T| x@)
}

/// The view of a converted list.
pub open spec fn list_result_view<T: View>(r: Result<Vec<T>, AdapterError>) -> Result<
    Seq<T::V>,
    SpecAdapterError,
> {
    match r {
        Ok(items) => Ok(item_views(items@)),
        Err(e) => Err(e@),
    }
}

proof fn lemma_error_stays<T: FromNode>(
    nodes: Seq<SpecSExpr>,
    path: Seq<char>,
    ordinals: Seq<i64>,
    n: int,
    m: int,
)
    requires
        0 <= n <= m,
        converted_upto::<T>(nodes, path, ordinals, n) is Err,
    ensures
        converted_upto::<T>(nodes, path, ordinals, m) == converted_upto::<T>(
            nodes,
            path,
            ordinals,
            n,
        ),
    decreases m - n,
{
    if n < m {
        lemma_error_stays::<T>(nodes, path, ordinals, n, m - 1);
    }
}

/// Converts every entry of `nodes`, in order.
pub fn convert_all<T: FromNode>(nodes: &Vec<&SExpr>, path: &str, ordinals: &Vec<i64>) -> (r: Result<
    Vec<T>,
    AdapterError,
>)
    ensures
        list_result_view(r) == converted::<T>(tree_refs(nodes@), path@, ordinals@),
{
    let ghost ns = tree_refs(nodes@);
    let mut items: Vec<T> = Vec::new();
    assert(item_views(items@) =~= seq![]);
    let mut i: usize = 0;
    while i < nodes.len()
        invariant
            i <= nodes@.len(),
            ns == tree_refs(nodes@),
            converted_upto::<T>(ns, path@, ordinals@, i as int) == Ok::<
                Seq<T::V>,
                SpecAdapterError,
            >(item_views(items@)),
        decreases nodes@.len() - i,
    {
        assert(nodes@[i as int]@ == ns[i as int]);
        let ghost prev = items@;
        match T::from_node(nodes[i], path, ordinals) {
            Ok(item) => {
                items.push(item);
                assert(item_views(items@) =~= item_views(prev).push(item@));
            },
            Err(e) => {
                proof {
                    lemma_error_stays::<T>(ns, path@, ordinals@, i + 1, nodes@.len() as int);
                }
                return Err(e);
            },
        }
        i = i + 1;
    }
    Ok(items)
}

} // verus!
