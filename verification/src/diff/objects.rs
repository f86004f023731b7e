//! The diff of one kind of canonical object: pairing, then one report per
//! pairing entry.

use vstd::prelude::*;

use super::matcher::{
    entry_in_range, key_views, lemma_match_items_in_range, match_keys, spec_match_items, MatchKey,
    MatchedIndex, SpecMatchKey,
};
use super::types::{change_views, MatchMethod, ObjectChange, SpecObjectChange};

verus! {

/// A kind of canonical object that the diff pairs and reports on.
pub trait Comparable: Sized + View {
    /// The keys by which an object is paired.
    spec fn spec_key(v: Self::V) -> SpecMatchKey;

    /// The reports on a pair of objects.
    spec fn spec_pair_reports(old: Self::V, new: Self::V, method: MatchMethod) -> Seq<
        SpecObjectChange,
    >;

    /// The reports on an object of the earlier revision without partner.
    spec fn spec_removed_reports(v: Self::V) -> Seq<SpecObjectChange>;

    /// The reports on an object of the later revision without partner.
    spec fn spec_added_reports(v: Self::V) -> Seq<SpecObjectChange>;

    fn match_key(&self) -> (k: MatchKey)
        ensures
            k@ == Self::spec_key(self@),
    ;

    fn report_pair(&self, new: &Self, method: MatchMethod, changes: &mut Vec<ObjectChange>)
        ensures
            change_views(final(changes)@) == change_views(old(changes)@)
                + Self::spec_pair_reports(self@, new@, method),
    ;

    fn report_removed(&self, changes: &mut Vec<ObjectChange>)
        ensures
            change_views(final(changes)@) == change_views(old(changes)@)
                + Self::spec_removed_reports(self@),
    ;

    fn report_added(&self, changes: &mut Vec<ObjectChange>)
        ensures
            change_views(final(changes)@) == change_views(old(changes)@) + Self::spec_added_reports(
                self@,
            ),
    ;
}

pub open spec fn views<T: View>(items: Seq<T>) -> Seq<T::V> {
    items.map_values(|x: T| x@)
}

pub open spec fn object_keys<T: Comparable>(items: Seq<T::V>) -> Seq<SpecMatchKey> {
    items.map_values(|v: T::V| T::spec_key(v))
}

/// The reports on one entry of a pairing.
pub open spec fn entry_reports<T: Comparable>(
    b: Seq<T::V>,
    a: Seq<T::V>,
    m: MatchedIndex,
) -> Seq<SpecObjectChange> {
    match (m.before, m.after) {
        (Some(i), Some(j)) => T::spec_pair_reports(b[i as int], a[j as int], m.method->0),
        (Some(i), None) => T::spec_removed_reports(b[i as int]),
        (None, Some(j)) => T::spec_added_reports(a[j as int]),
        (None, None) => seq![],
    }
}

/// The reports on the first `n` entries of a pairing.
pub open spec fn entries_reports<T: Comparable>(
    b: Seq<T::V>,
    a: Seq<T::V>,
    ms: Seq<MatchedIndex>,
    n: int,
) -> Seq<SpecObjectChange>
    decreases n,
{
    if n <= 0 {
        seq![]
    } else {
        entries_reports::<T>(b, a, ms, n - 1) + entry_reports::<T>(b, a, ms[n - 1])
    }
}

/// The pairing of two revisions of objects of one kind.
pub open spec fn object_pairing<T: Comparable>(
    b: Seq<T::V>,
    a: Seq<T::V>,
    method: MatchMethod,
) -> Seq<MatchedIndex> {
    spec_match_items(object_keys::<T>(b), object_keys::<T>(a), method)
}

/// The reports on two revisions of objects of one kind, in the order of their
/// pairing.
pub open spec fn object_changes<T: Comparable>(
    b: Seq<T::V>,
    a: Seq<T::V>,
    method: MatchMethod,
) -> Seq<SpecObjectChange> {
    let ms = object_pairing::<T>(b, a, method);
    entries_reports::<T>(b, a, ms, ms.len() as int)
}

fn keys_of<T: Comparable>(items: &Vec<T>) -> (keys: Vec<MatchKey>)
    ensures
        key_views(keys@) == object_keys::<T>(views(items@)),
{
    let ghost v = views(items@);
    let mut keys: Vec<MatchKey> = Vec::new();
    let mut i: usize = 0;
    while i < items.len()
        invariant
            i <= items@.len(),
            v == views(items@),
            key_views(keys@) == object_keys::<T>(v).take(i as int),
        decreases items@.len() - i,
    {
        let ghost prev = keys@;
        let k = items[i].match_key();
        keys.push(k);
        assert(key_views(keys@) =~= key_views(prev).push(k@));
        assert(object_keys::<T>(v).take(i + 1) =~= object_keys::<T>(v).take(i as int).push(k@));
        i = i + 1;
    }
    assert(object_keys::<T>(v).take(items@.len() as int) =~= object_keys::<T>(v));
    keys
}

fn report_entry<T: Comparable>(
    before: &Vec<T>,
    after: &Vec<T>,
    m: MatchedIndex,
    changes: &mut Vec<ObjectChange>,
)
    requires
        entry_in_range(before@.len() as int, after@.len() as int, m),
    ensures
        change_views(final(changes)@) == change_views(old(changes)@) + entry_reports::<T>(
            views(before@),
            views(after@),
            m,
        ),
{
    match (m.before, m.after) {
        (Some(i), Some(j)) => {
            let method = match m.method {
                Some(x) => x,
                None => MatchMethod::ObjectId,
            };
            before[i].report_pair(&after[j], method, changes);
        },
        (Some(i), None) => {
            before[i].report_removed(changes);
        },
        (None, Some(j)) => {
            after[j].report_added(changes);
        },
        (None, None) => {
            assert(change_views(changes@) =~= change_views(old(changes)@) + seq![]);
        },
    }
}

/// Appends the reports on two revisions of objects of one kind to `changes`.
pub fn diff_objects<T: Comparable>(
    before: &Vec<T>,
    after: &Vec<T>,
    method: MatchMethod,
    changes: &mut Vec<ObjectChange>,
)
    ensures
        change_views(final(changes)@) == change_views(old(changes)@) + object_changes::<T>(
            views(before@),
            views(after@),
            method,
        ),
{
    let ghost b = views(before@);
    let ghost a = views(after@);
    let before_keys = keys_of(before);
    let after_keys = keys_of(after);
    let ms = match_keys(before_keys.as_slice(), after_keys.as_slice(), method);
    let ghost nb = before_keys.len();
    let ghost na = after_keys.len();
    proof {
        assert(object_keys::<T>(b).len() == nb && object_keys::<T>(a).len() == na);
        lemma_match_items_in_range(object_keys::<T>(b), object_keys::<T>(a), method);
    }
    let ghost start = change_views(changes@);
    let mut t: usize = 0;
    while t < ms.len()
        invariant
            t <= ms@.len(),
            ms@ == object_pairing::<T>(b, a, method),
            b == views(before@),
            a == views(after@),
            forall|x: int|
                0 <= x < ms@.len() ==> entry_in_range(
                    b.len() as int,
                    a.len() as int,
                    #[trigger] ms@[x],
                ),
            change_views(changes@) == start + entries_reports::<T>(b, a, ms@, t as int),
        decreases ms@.len() - t,
    {
        report_entry(before, after, ms[t], changes);
        assert(start + entries_reports::<T>(b, a, ms@, t + 1) =~= start + entries_reports::<T>(
            b,
            a,
            ms@,
            t as int,
        ) + entry_reports::<T>(b, a, ms@[t as int]));
        t = t + 1;
    }
}

} // verus!
