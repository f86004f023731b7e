//! Laws on what the reports of a diff cover: every object of the earlier
//! revision is reported, as removed exactly when the pairing leaves it without
//! partner, and every object of the later revision is reported, as added
//! exactly when it has no partner.

use vstd::prelude::*;

use super::laws::{count_after, count_before, lemma_match_items_partition};
use super::matcher::{entry_in_range, lemma_match_items_in_range, spec_match_items, MatchedIndex};
use super::objects::{
    entries_reports, entry_reports, object_changes, object_keys, object_pairing, Comparable,
};
use super::types::{ChangeKind, MatchMethod, SpecObjectChange};
use crate::model::pcb::{BoardEdge, Footprint, Net as PcbNet, Track, Via};
use crate::model::schematic::{Junction, Label, Net as SchematicNet, Symbol, Wire};

verus! {

/// The first report on a pair, on an earlier object and on a later object of
/// a kind names the objects by their identifiers and says what happened to
/// them: a pair is unchanged or modified, an earlier object alone removed, a
/// later object alone added.
pub open spec fn reports_name_objects<T: Comparable>() -> bool {
    &&& forall|x: T::V, y: T::V, m: MatchMethod|
        (#[trigger] T::spec_pair_reports(x, y, m)).len() >= 1 && T::spec_pair_reports(x, y, m)[0].before_id
            == Some(T::spec_key(x).primary) && T::spec_pair_reports(x, y, m)[0].after_id == Some(
            T::spec_key(y).primary,
        ) && (T::spec_pair_reports(x, y, m)[0].kind == ChangeKind::Unchanged
            || T::spec_pair_reports(x, y, m)[0].kind == ChangeKind::Modified)
    &&& forall|x: T::V|
        (#[trigger] T::spec_removed_reports(x)).len() >= 1 && T::spec_removed_reports(x)[0].before_id
            == Some(T::spec_key(x).primary) && T::spec_removed_reports(x)[0].kind
            == ChangeKind::Removed
    &&& forall|x: T::V|
        (#[trigger] T::spec_added_reports(x)).len() >= 1 && T::spec_added_reports(x)[0].after_id
            == Some(T::spec_key(x).primary) && T::spec_added_reports(x)[0].kind == ChangeKind::Added
}

/// The pairing `ms` gives the earlier object `i` a partner.
pub open spec fn paired_before(ms: Seq<MatchedIndex>, i: int) -> bool {
    exists|t: int|
        0 <= t < ms.len() && (#[trigger] ms[t]).before == Some(i as usize) && ms[t].after is Some
}

/// The pairing `ms` gives the later object `j` a partner.
pub open spec fn paired_after(ms: Seq<MatchedIndex>, j: int) -> bool {
    exists|t: int|
        0 <= t < ms.len() && (#[trigger] ms[t]).after == Some(j as usize) && ms[t].before is Some
}

/// The earlier object `i` is reported by its identifier: as removed exactly
/// when the pairing gives it no partner, else as unchanged or modified.
pub open spec fn before_reported<T: Comparable>(
    b: Seq<T::V>,
    a: Seq<T::V>,
    method: MatchMethod,
    i: int,
) -> bool {
    let cs = object_changes::<T>(b, a, method);
    exists|t: int|
        0 <= t < cs.len() && (#[trigger] cs[t]).before_id == Some(T::spec_key(b[i]).primary) && (
        cs[t].kind == ChangeKind::Removed <==> !paired_before(object_pairing::<T>(b, a, method), i))
            && cs[t].kind != ChangeKind::Added
}

/// The later object `j` is reported by its identifier: as added exactly when
/// the pairing gives it no partner, else as unchanged or modified.
pub open spec fn after_reported<T: Comparable>(
    b: Seq<T::V>,
    a: Seq<T::V>,
    method: MatchMethod,
    j: int,
) -> bool {
    let cs = object_changes::<T>(b, a, method);
    exists|t: int|
        0 <= t < cs.len() && (#[trigger] cs[t]).after_id == Some(T::spec_key(a[j]).primary) && (
        cs[t].kind == ChangeKind::Added <==> !paired_after(object_pairing::<T>(b, a, method), j))
            && cs[t].kind != ChangeKind::Removed
}

proof fn lemma_count_before_entry(ms: Seq<MatchedIndex>, i: int)
    requires
        0 <= i <= usize::MAX,
        count_before(ms, i) == 1,
    ensures
        exists|t: int| 0 <= t < ms.len() && (#[trigger] ms[t]).before == Some(i as usize),
        forall|t: int, u: int|
            0 <= t < ms.len() && 0 <= u < ms.len() && (#[trigger] ms[t]).before == Some(i as usize)
                && (#[trigger] ms[u]).before == Some(i as usize) ==> t == u,
    decreases ms.len(),
{
    let p = ms.drop_last();
    let hit = ms.last().before == Some(i as usize);
    if hit {
        assert(count_before(p, i) == 0);
        lemma_count_before_none(p, i);
        assert(ms[ms.len() - 1].before == Some(i as usize));
        assert forall|t: int, u: int|
            0 <= t < ms.len() && 0 <= u < ms.len() && (#[trigger] ms[t]).before == Some(i as usize)
                && (#[trigger] ms[u]).before == Some(i as usize) implies t == u by {
            if t < ms.len() - 1 {
                assert(p[t] == ms[t]);
            }
            if u < ms.len() - 1 {
                assert(p[u] == ms[u]);
            }
        }
    } else {
        assert(count_before(p, i) == 1);
        lemma_count_before_entry(p, i);
        let t = choose|t: int| 0 <= t < p.len() && (#[trigger] p[t]).before == Some(i as usize);
        assert(ms[t] == p[t]);
        assert forall|t: int, u: int|
            0 <= t < ms.len() && 0 <= u < ms.len() && (#[trigger] ms[t]).before == Some(i as usize)
                && (#[trigger] ms[u]).before == Some(i as usize) implies t == u by {
            assert(t < ms.len() - 1 && u < ms.len() - 1);
            assert(p[t] == ms[t] && p[u] == ms[u]);
        }
    }
}

proof fn lemma_count_before_none(ms: Seq<MatchedIndex>, i: int)
    requires
        0 <= i <= usize::MAX,
        count_before(ms, i) == 0,
    ensures
        forall|t: int| 0 <= t < ms.len() ==> (#[trigger] ms[t]).before != Some(i as usize),
    decreases ms.len(),
{
    if ms.len() > 0 {
        let p = ms.drop_last();
        lemma_count_before_none(p, i);
        assert forall|t: int| 0 <= t < ms.len() implies (#[trigger] ms[t]).before != Some(i as usize) by {
            if t < ms.len() - 1 {
                assert(p[t] == ms[t]);
            }
        }
    }
}

proof fn lemma_count_after_entry(ms: Seq<MatchedIndex>, j: int)
    requires
        0 <= j <= usize::MAX,
        count_after(ms, j) == 1,
    ensures
        exists|t: int| 0 <= t < ms.len() && (#[trigger] ms[t]).after == Some(j as usize),
        forall|t: int, u: int|
            0 <= t < ms.len() && 0 <= u < ms.len() && (#[trigger] ms[t]).after == Some(j as usize)
                && (#[trigger] ms[u]).after == Some(j as usize) ==> t == u,
    decreases ms.len(),
{
    let p = ms.drop_last();
    let hit = ms.last().after == Some(j as usize);
    if hit {
        assert(count_after(p, j) == 0);
        lemma_count_after_none(p, j);
        assert(ms[ms.len() - 1].after == Some(j as usize));
        assert forall|t: int, u: int|
            0 <= t < ms.len() && 0 <= u < ms.len() && (#[trigger] ms[t]).after == Some(j as usize)
                && (#[trigger] ms[u]).after == Some(j as usize) implies t == u by {
            if t < ms.len() - 1 {
                assert(p[t] == ms[t]);
            }
            if u < ms.len() - 1 {
                assert(p[u] == ms[u]);
            }
        }
    } else {
        assert(count_after(p, j) == 1);
        lemma_count_after_entry(p, j);
        let t = choose|t: int| 0 <= t < p.len() && (#[trigger] p[t]).after == Some(j as usize);
        assert(ms[t] == p[t]);
        assert forall|t: int, u: int|
            0 <= t < ms.len() && 0 <= u < ms.len() && (#[trigger] ms[t]).after == Some(j as usize)
                && (#[trigger] ms[u]).after == Some(j as usize) implies t == u by {
            assert(t < ms.len() - 1 && u < ms.len() - 1);
            assert(p[t] == ms[t] && p[u] == ms[u]);
        }
    }
}

proof fn lemma_count_after_none(ms: Seq<MatchedIndex>, j: int)
    requires
        0 <= j <= usize::MAX,
        count_after(ms, j) == 0,
    ensures
        forall|t: int| 0 <= t < ms.len() ==> (#[trigger] ms[t]).after != Some(j as usize),
    decreases ms.len(),
{
    if ms.len() > 0 {
        let p = ms.drop_last();
        lemma_count_after_none(p, j);
        assert forall|t: int| 0 <= t < ms.len() implies (#[trigger] ms[t]).after != Some(j as usize) by {
            if t < ms.len() - 1 {
                assert(p[t] == ms[t]);
            }
        }
    }
}

proof fn lemma_entries_contain<T: Comparable>(
    b: Seq<T::V>,
    a: Seq<T::V>,
    ms: Seq<MatchedIndex>,
    n: int,
)
    requires
        0 <= n <= ms.len(),
    ensures
        forall|t: int|
            0 <= t < n && (#[trigger] entry_reports::<T>(b, a, ms[t])).len() >= 1 ==> exists|u: int|
                0 <= u < entries_reports::<T>(b, a, ms, n).len() && entries_reports::<T>(
                    b,
                    a,
                    ms,
                    n,
                )[u] == entry_reports::<T>(b, a, ms[t])[0],
    decreases n,
{
    if n > 0 {
        lemma_entries_contain::<T>(b, a, ms, n - 1);
        let prev = entries_reports::<T>(b, a, ms, n - 1);
        let cur = entries_reports::<T>(b, a, ms, n);
        let last = entry_reports::<T>(b, a, ms[n - 1]);
        assert(cur == prev + last);
        assert forall|t: int|
            0 <= t < n && (#[trigger] entry_reports::<T>(b, a, ms[t])).len() >= 1 implies exists|u: int|
                0 <= u < cur.len() && cur[u] == entry_reports::<T>(b, a, ms[t])[0] by {
            if t < n - 1 {
                let u = choose|u: int|
                    0 <= u < prev.len() && prev[u] == entry_reports::<T>(b, a, ms[t])[0];
                assert(cur[u] == prev[u]);
            } else {
                assert(cur[prev.len() as int] == last[0]);
            }
        }
    }
}

/// Every object of the earlier revision is reported by its identifier: as
/// removed exactly when the pairing gives it no partner, else as unchanged or
/// modified. Every object of the later revision is reported by its
/// identifier: as added exactly when it has no partner, else as unchanged or
/// modified.
pub proof fn lemma_object_changes_cover<T: Comparable>(b: Seq<T::V>, a: Seq<T::V>, method: MatchMethod)
    requires
        reports_name_objects::<T>(),
        b.len() <= usize::MAX,
        a.len() <= usize::MAX,
    ensures
        forall|i: int| 0 <= i < b.len() ==> #[trigger] before_reported::<T>(b, a, method, i),
        forall|j: int| 0 <= j < a.len() ==> #[trigger] after_reported::<T>(b, a, method, j),
{
    let bk = object_keys::<T>(b);
    let ak = object_keys::<T>(a);
    let ms = object_pairing::<T>(b, a, method);
    let cs = object_changes::<T>(b, a, method);
    lemma_match_items_partition(bk, ak, method);
    lemma_match_items_in_range(bk, ak, method);
    lemma_entries_contain::<T>(b, a, ms, ms.len() as int);
    assert forall|i: int| 0 <= i < b.len() implies #[trigger] before_reported::<T>(b, a, method, i) by {
        assert(count_before(spec_match_items(bk, ak, method), i) == 1);
        lemma_count_before_entry(ms, i);
        let t = choose|t: int| 0 <= t < ms.len() && (#[trigger] ms[t]).before == Some(i as usize);
        let e = ms[t];
        assert(entry_in_range(bk.len() as int, ak.len() as int, e));
        let r = entry_reports::<T>(b, a, e);
        match e.after {
            Some(j) => {
                assert(r == T::spec_pair_reports(b[i], a[j as int], e.method->0));
                assert(paired_before(ms, i));
            },
            None => {
                assert(r == T::spec_removed_reports(b[i]));
                assert(!paired_before(ms, i)) by {
                    if paired_before(ms, i) {
                        let t2 = choose|t2: int|
                            0 <= t2 < ms.len() && (#[trigger] ms[t2]).before == Some(i as usize)
                                && ms[t2].after is Some;
                        assert(t2 == t);
                    }
                }
            },
        }
        assert(r.len() >= 1);
        let u = choose|u: int| 0 <= u < cs.len() && cs[u] == r[0];
        assert(cs[u] == r[0]);
    }
    assert forall|j: int| 0 <= j < a.len() implies #[trigger] after_reported::<T>(b, a, method, j) by {
        assert(count_after(spec_match_items(bk, ak, method), j) == 1);
        lemma_count_after_entry(ms, j);
        let t = choose|t: int| 0 <= t < ms.len() && (#[trigger] ms[t]).after == Some(j as usize);
        let e = ms[t];
        assert(entry_in_range(bk.len() as int, ak.len() as int, e));
        let r = entry_reports::<T>(b, a, e);
        match e.before {
            Some(i) => {
                assert(r == T::spec_pair_reports(b[i as int], a[j], e.method->0));
                assert(paired_after(ms, j));
            },
            None => {
                assert(r == T::spec_added_reports(a[j]));
                assert(!paired_after(ms, j)) by {
                    if paired_after(ms, j) {
                        let t2 = choose|t2: int|
                            0 <= t2 < ms.len() && (#[trigger] ms[t2]).after == Some(j as usize)
                                && ms[t2].before is Some;
                        assert(t2 == t);
                    }
                }
            },
        }
        assert(r.len() >= 1);
        let u = choose|u: int| 0 <= u < cs.len() && cs[u] == r[0];
        assert(cs[u] == r[0]);
    }
}

/// The reports on the objects of a board name them as
/// `reports_name_objects` says, for every kind of object of a board.
pub proof fn lemma_pcb_reports_name_objects()
    ensures
        reports_name_objects::<Footprint>(),
        reports_name_objects::<Track>(),
        reports_name_objects::<Via>(),
        reports_name_objects::<PcbNet>(),
        reports_name_objects::<BoardEdge>(),
{
}

/// The reports on the objects of a schematic name them as
/// `reports_name_objects` says, for every kind of object of a schematic.
pub proof fn lemma_schematic_reports_name_objects()
    ensures
        reports_name_objects::<Symbol>(),
        reports_name_objects::<Wire>(),
        reports_name_objects::<Junction>(),
        reports_name_objects::<Label>(),
        reports_name_objects::<SchematicNet>(),
{
}

} // verus!
