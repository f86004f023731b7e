//! Laws of the semantic diff: how the pairing of two revisions covers and
//! justifies its pairs, what comparing a revision with itself reports, that
//! every report is well formed, and what swapping the two revisions does.

use vstd::prelude::*;

use super::matcher::{
    after_paired, after_primary_flags, after_primary_used, before_paired, before_primary_flags,
    before_primary_used, fallback_hit, fallback_pairs, fallback_partner, fallback_unique,
    after_fallback_used, first_primary, last_primary, lemma_after_fallback_used, lemma_fallback_count_two,
    lemma_first_primary, lemma_first_primary_stable, lemma_last_fallback, lemma_last_primary,
    lemma_single_hit_is_last,
    primary_pairs, primary_partner, spec_match_items, unpaired_after, unpaired_before,
    entry_in_range, lemma_match_items_in_range, MatchedIndex, SpecMatchKey,
};
use super::objects::{entries_reports, entry_reports, object_changes, object_keys, Comparable};
use super::pcb::{
    footprint_fields, pad_additions, pad_changes, pad_entries_reports, pad_entry_reports, pad_keys,
    pad_removals, pcb_changes,
};
use super::schematic::schematic_changes;
use super::types::{
    spec_report, field_check, first_present, non_empty_text, same_value, spec_added, spec_compared, spec_removed,
    ChangeKind, MatchMethod, SpecFieldChange, SpecFieldValue, SpecObjectChange,
};
use crate::model::common::Point;
use crate::model::pcb::{
    BoardEdge, Footprint, Net as PcbNet, SpecBoardEdge, SpecFootprint, SpecNet as SpecPcbNet,
    SpecPad, SpecPcb, SpecTrack, SpecVia, Track, Via,
};
use crate::model::schematic::{
    Junction, Label, Net as SchematicNet, SpecJunction, SpecLabel, SpecNet as SpecSchematicNet,
    SpecSchematic, SpecSymbol, SpecWire, Symbol, Wire,
};

verus! {

/// How many entries of `ms` name the earlier object `i`.
pub open spec fn count_before(ms: Seq<MatchedIndex>, i: int) -> nat
    decreases ms.len(),
{
    if ms.len() == 0 {
        0
    } else {
        count_before(ms.drop_last(), i) + match ms.last().before {
            Some(x) => if x as int == i {
                1nat
            } else {
                0nat
            },
            None => 0nat,
        }
    }
}

/// How many entries of `ms` name the later object `j`.
pub open spec fn count_after(ms: Seq<MatchedIndex>, j: int) -> nat
    decreases ms.len(),
{
    if ms.len() == 0 {
        0
    } else {
        count_after(ms.drop_last(), j) + match ms.last().after {
            Some(x) => if x as int == j {
                1nat
            } else {
                0nat
            },
            None => 0nat,
        }
    }
}

proof fn lemma_count_concat(a: Seq<MatchedIndex>, b: Seq<MatchedIndex>, i: int)
    ensures
        count_before(a + b, i) == count_before(a, i) + count_before(b, i),
        count_after(a + b, i) == count_after(a, i) + count_after(b, i),
    decreases b.len(),
{
    if b.len() == 0 {
        assert(a + b =~= a);
    } else {
        lemma_count_concat(a, b.drop_last(), i);
        assert((a + b).drop_last() =~= a + b.drop_last());
    }
}

proof fn lemma_count_single(e: MatchedIndex, i: int)
    ensures
        count_before(seq![e], i) == match e.before {
            Some(x) => if x as int == i {
                1nat
            } else {
                0nat
            },
            None => 0nat,
        },
        count_after(seq![e], i) == match e.after {
            Some(x) => if x as int == i {
                1nat
            } else {
                0nat
            },
            None => 0nat,
        },
{
    let s = seq![e];
    assert(s.drop_last() =~= Seq::<MatchedIndex>::empty());
    assert(s.last() == e);
    assert(count_before(s.drop_last(), i) == 0);
    assert(count_after(s.drop_last(), i) == 0);
}

/// Earlier objects below `n` paired by primary key with the later object `j`.
pub open spec fn primary_hits(bk: Seq<SpecMatchKey>, ak: Seq<SpecMatchKey>, j: int, n: int) -> nat
    decreases n,
{
    if n <= 0 {
        0
    } else {
        primary_hits(bk, ak, j, n - 1) + if primary_partner(bk, ak, n - 1) == Some(j) {
            1nat
        } else {
            0nat
        }
    }
}

/// Earlier objects below `n` paired by fallback key with the later object `j`.
pub open spec fn fallback_hits(bk: Seq<SpecMatchKey>, ak: Seq<SpecMatchKey>, j: int, n: int) -> nat
    decreases n,
{
    if n <= 0 {
        0
    } else {
        fallback_hits(bk, ak, j, n - 1) + if fallback_partner(bk, ak, n - 1) == Some(j) {
            1nat
        } else {
            0nat
        }
    }
}

proof fn lemma_primary_pairs_counts(
    bk: Seq<SpecMatchKey>,
    ak: Seq<SpecMatchKey>,
    n: int,
    i: int,
    j: int,
)
    requires
        0 <= n <= bk.len() <= usize::MAX,
        ak.len() <= usize::MAX,
        0 <= i,
        0 <= j,
    ensures
        count_before(primary_pairs(bk, ak, n), i) == if i < n && primary_partner(bk, ak, i) is Some {
            1nat
        } else {
            0nat
        },
        count_after(primary_pairs(bk, ak, n), j) == primary_hits(bk, ak, j, n),
    decreases n,
{
    if n > 0 {
        lemma_primary_pairs_counts(bk, ak, n - 1, i, j);
        let prev = primary_pairs(bk, ak, n - 1);
        match primary_partner(bk, ak, n - 1) {
            Some(x) => {
                lemma_last_primary(ak, bk[n - 1].primary, ak.len() as int);
                let e = MatchedIndex {
                    before: Some((n - 1) as usize),
                    after: Some(x as usize),
                    method: Some(MatchMethod::ObjectId),
                };
                lemma_count_concat(prev, seq![e], i);
                lemma_count_concat(prev, seq![e], j);
                lemma_count_single(e, i);
                lemma_count_single(e, j);
            },
            None => {
                assert(primary_pairs(bk, ak, n) =~= prev);
            },
        }
    }
}

proof fn lemma_fallback_pairs_counts(
    bk: Seq<SpecMatchKey>,
    ak: Seq<SpecMatchKey>,
    method: MatchMethod,
    n: int,
    i: int,
    j: int,
)
    requires
        0 <= n <= bk.len() <= usize::MAX,
        ak.len() <= usize::MAX,
        0 <= i,
        0 <= j,
    ensures
        count_before(fallback_pairs(bk, ak, method, n), i) == if i < n && fallback_partner(
            bk,
            ak,
            i,
        ) is Some {
            1nat
        } else {
            0nat
        },
        count_after(fallback_pairs(bk, ak, method, n), j) == fallback_hits(bk, ak, j, n),
    decreases n,
{
    if n > 0 {
        lemma_fallback_pairs_counts(bk, ak, method, n - 1, i, j);
        let prev = fallback_pairs(bk, ak, method, n - 1);
        match fallback_partner(bk, ak, n - 1) {
            Some(x) => {
                let k = bk[n - 1].fallback->0;
                lemma_last_fallback(ak, after_primary_flags(bk, ak), k, ak.len() as int);
                let e = MatchedIndex {
                    before: Some((n - 1) as usize),
                    after: Some(x as usize),
                    method: Some(method),
                };
                lemma_count_concat(prev, seq![e], i);
                lemma_count_concat(prev, seq![e], j);
                lemma_count_single(e, i);
                lemma_count_single(e, j);
            },
            None => {
                assert(fallback_pairs(bk, ak, method, n) =~= prev);
            },
        }
    }
}

proof fn lemma_unpaired_counts(bk: Seq<SpecMatchKey>, ak: Seq<SpecMatchKey>, n: int, m: int, i: int)
    requires
        0 <= n <= bk.len() <= usize::MAX,
        0 <= m <= ak.len() <= usize::MAX,
        0 <= i,
    ensures
        count_before(unpaired_before(bk, ak, n), i) == if i < n && !before_paired(bk, ak, i) {
            1nat
        } else {
            0nat
        },
        count_after(unpaired_before(bk, ak, n), i) == 0,
        count_before(unpaired_after(bk, ak, m), i) == 0,
        count_after(unpaired_after(bk, ak, m), i) == if i < m && !after_paired(bk, ak, i) {
            1nat
        } else {
            0nat
        },
    decreases n + m,
{
    if n > 0 {
        lemma_unpaired_counts(bk, ak, n - 1, m, i);
        let prev = unpaired_before(bk, ak, n - 1);
        if before_paired(bk, ak, n - 1) {
            assert(unpaired_before(bk, ak, n) =~= prev);
        } else {
            let e = MatchedIndex { before: Some((n - 1) as usize), after: None, method: None };
            lemma_count_concat(prev, seq![e], i);
            lemma_count_single(e, i);
        }
    }
    if m > 0 {
        lemma_unpaired_counts(bk, ak, n, m - 1, i);
        let prev = unpaired_after(bk, ak, m - 1);
        if after_paired(bk, ak, m - 1) {
            assert(unpaired_after(bk, ak, m) =~= prev);
        } else {
            let e = MatchedIndex { before: None, after: Some((m - 1) as usize), method: None };
            lemma_count_concat(prev, seq![e], i);
            lemma_count_single(e, i);
        }
    }
}

/// At most one earlier object has a given partner, and some has it when `x0`
/// has it: then exactly one has.
proof fn lemma_primary_hits(bk: Seq<SpecMatchKey>, ak: Seq<SpecMatchKey>, j: int, n: int)
    requires
        0 <= n <= bk.len(),
        0 <= j < ak.len(),
    ensures
        primary_hits(bk, ak, j, n) == if after_primary_used(bk, ak, j, n) {
            1nat
        } else {
            0nat
        },
    decreases n,
{
    let k = ak[j].primary;
    if n > 0 {
        lemma_primary_hits(bk, ak, j, n - 1);
        lemma_first_primary(bk, k, n - 1);
        lemma_first_primary(bk, k, bk.len() as int);
        lemma_last_primary(ak, k, ak.len() as int);
        let x = n - 1;
        let kx = bk[x].primary;
        lemma_last_primary(ak, kx, ak.len() as int);
        lemma_first_primary(bk, kx, bk.len() as int);
        if first_primary(bk, k, n - 1) is Some {
            lemma_first_primary_stable(bk, k, n - 1, n);
            lemma_first_primary_stable(bk, k, n - 1, bk.len() as int);
        } else if bk[x].primary == k {
            assert(first_primary(bk, k, n) == Some(x));
            lemma_first_primary_stable(bk, k, n, bk.len() as int);
        }
    }
}

proof fn lemma_fallback_hits(bk: Seq<SpecMatchKey>, ak: Seq<SpecMatchKey>, j: int, n: int)
    requires
        0 <= n <= bk.len(),
        0 <= j < ak.len(),
    ensures
        primary_hits(bk, ak, j, n) <= 1,
        fallback_hits(bk, ak, j, n) <= 1,
        fallback_hits(bk, ak, j, n) == 1 ==> exists|x: int|
            0 <= x < n && fallback_partner(bk, ak, x) == Some(j),
        fallback_hits(bk, ak, j, n) == 0 ==> forall|x: int|
            0 <= x < n ==> fallback_partner(bk, ak, x) != Some(j),
    decreases n,
{
    lemma_primary_hits(bk, ak, j, n);
    if n > 0 {
        lemma_fallback_hits(bk, ak, j, n - 1);
        let x = n - 1;
        if fallback_partner(bk, ak, x) == Some(j) && fallback_hits(bk, ak, j, n - 1) == 1 {
            let y = choose|y: int| 0 <= y < n - 1 && fallback_partner(bk, ak, y) == Some(j);
            let bflags = before_primary_flags(bk, ak);
            let aflags = after_primary_flags(bk, ak);
            let kx = bk[x].fallback->0;
            let ky = bk[y].fallback->0;
            lemma_last_fallback(ak, aflags, kx, ak.len() as int);
            lemma_last_fallback(ak, aflags, ky, ak.len() as int);
            assert(kx == ak[j].fallback->0);
            assert(ky == ak[j].fallback->0);
            assert(fallback_hit(bk, bflags, kx, x));
            assert(fallback_hit(bk, bflags, kx, y));
            lemma_fallback_count_two(bk, bflags, kx, bk.len() as int, y, x);
        }
    }
}

/// Every object of either revision is reported exactly once by the pairing:
/// each earlier object is named by exactly one entry, and so is each later one.
pub proof fn lemma_match_items_partition(
    bk: Seq<SpecMatchKey>,
    ak: Seq<SpecMatchKey>,
    method: MatchMethod,
)
    requires
        bk.len() <= usize::MAX,
        ak.len() <= usize::MAX,
    ensures
        forall|i: int|
            0 <= i < bk.len() ==> count_before(#[trigger] spec_match_items(bk, ak, method), i)
                == 1,
        forall|j: int|
            0 <= j < ak.len() ==> count_after(#[trigger] spec_match_items(bk, ak, method), j) == 1,
{
    let nb = bk.len() as int;
    let na = ak.len() as int;
    let p = primary_pairs(bk, ak, nb);
    let f = fallback_pairs(bk, ak, method, nb);
    let u = unpaired_before(bk, ak, nb);
    let v = unpaired_after(bk, ak, na);
    assert forall|i: int| 0 <= i < nb implies count_before(
        #[trigger] spec_match_items(bk, ak, method),
        i,
    ) == 1 by {
        lemma_primary_pairs_counts(bk, ak, nb, i, 0);
        lemma_fallback_pairs_counts(bk, ak, method, nb, i, 0);
        lemma_unpaired_counts(bk, ak, nb, na, i);
        lemma_count_concat(p, f, i);
        lemma_count_concat(p + f, u, i);
        lemma_count_concat(p + f + u, v, i);
    }
    assert forall|j: int| 0 <= j < na implies count_after(
        #[trigger] spec_match_items(bk, ak, method),
        j,
    ) == 1 by {
        lemma_primary_pairs_counts(bk, ak, nb, 0, j);
        lemma_fallback_pairs_counts(bk, ak, method, nb, 0, j);
        lemma_unpaired_counts(bk, ak, nb, na, j);
        lemma_count_concat(p, f, j);
        lemma_count_concat(p + f, u, j);
        lemma_count_concat(p + f + u, v, j);
        lemma_primary_hits(bk, ak, j, nb);
        lemma_fallback_hits(bk, ak, j, nb);
        lemma_after_fallback_used(bk, ak, j);
    }
}


/// Each entry of the pairs by primary key below `n` pairs an earlier object
/// with its primary partner.
proof fn lemma_primary_pairs_entries(bk: Seq<SpecMatchKey>, ak: Seq<SpecMatchKey>, n: int)
    requires
        0 <= n <= bk.len() <= usize::MAX,
        ak.len() <= usize::MAX,
    ensures
        forall|t: int|
            0 <= t < primary_pairs(bk, ak, n).len() ==> {
                let e = #[trigger] primary_pairs(bk, ak, n)[t];
                &&& e.method == Some(MatchMethod::ObjectId)
                &&& e.before matches Some(i) && e.after matches Some(j) && i < n
                    && primary_partner(bk, ak, i as int) == Some(j as int)
            },
    decreases n,
{
    if n > 0 {
        lemma_primary_pairs_entries(bk, ak, n - 1);
        let prev = primary_pairs(bk, ak, n - 1);
        match primary_partner(bk, ak, n - 1) {
            Some(x) => {
                lemma_last_primary(ak, bk[n - 1].primary, ak.len() as int);
                let e = MatchedIndex {
                    before: Some((n - 1) as usize),
                    after: Some(x as usize),
                    method: Some(MatchMethod::ObjectId),
                };
                assert forall|t: int| 0 <= t < primary_pairs(bk, ak, n).len() implies {
                    let f = #[trigger] primary_pairs(bk, ak, n)[t];
                    &&& f.method == Some(MatchMethod::ObjectId)
                    &&& f.before matches Some(i) && f.after matches Some(j) && i < n
                        && primary_partner(bk, ak, i as int) == Some(j as int)
                } by {
                    if t < prev.len() {
                        assert(primary_pairs(bk, ak, n)[t] == prev[t]);
                    } else {
                        assert(primary_pairs(bk, ak, n)[t] == e);
                    }
                }
            },
            None => {
                assert(primary_pairs(bk, ak, n) =~= prev);
            },
        }
    }
}

/// Each entry of the pairs by fallback key below `n` pairs an earlier object
/// with its fallback partner.
proof fn lemma_fallback_pairs_entries(
    bk: Seq<SpecMatchKey>,
    ak: Seq<SpecMatchKey>,
    method: MatchMethod,
    n: int,
)
    requires
        0 <= n <= bk.len() <= usize::MAX,
        ak.len() <= usize::MAX,
    ensures
        forall|t: int|
            0 <= t < fallback_pairs(bk, ak, method, n).len() ==> {
                let e = #[trigger] fallback_pairs(bk, ak, method, n)[t];
                &&& e.method == Some(method)
                &&& e.before matches Some(i) && e.after matches Some(j) && i < n
                    && fallback_partner(bk, ak, i as int) == Some(j as int)
            },
    decreases n,
{
    if n > 0 {
        lemma_fallback_pairs_entries(bk, ak, method, n - 1);
        let prev = fallback_pairs(bk, ak, method, n - 1);
        match fallback_partner(bk, ak, n - 1) {
            Some(x) => {
                let k = bk[n - 1].fallback->0;
                lemma_last_fallback(ak, after_primary_flags(bk, ak), k, ak.len() as int);
                let e = MatchedIndex {
                    before: Some((n - 1) as usize),
                    after: Some(x as usize),
                    method: Some(method),
                };
                assert forall|t: int| 0 <= t < fallback_pairs(bk, ak, method, n).len() implies {
                    let f = #[trigger] fallback_pairs(bk, ak, method, n)[t];
                    &&& f.method == Some(method)
                    &&& f.before matches Some(i) && f.after matches Some(j) && i < n
                        && fallback_partner(bk, ak, i as int) == Some(j as int)
                } by {
                    if t < prev.len() {
                        assert(fallback_pairs(bk, ak, method, n)[t] == prev[t]);
                    } else {
                        assert(fallback_pairs(bk, ak, method, n)[t] == e);
                    }
                }
            },
            None => {
                assert(fallback_pairs(bk, ak, method, n) =~= prev);
            },
        }
    }
}

/// The entries of the unpaired earlier objects below `n` name no later object.
proof fn lemma_unpaired_entries(bk: Seq<SpecMatchKey>, ak: Seq<SpecMatchKey>, n: int, m: int)
    requires
        0 <= n,
        0 <= m,
    ensures
        forall|t: int|
            0 <= t < unpaired_before(bk, ak, n).len() ==> (#[trigger] unpaired_before(
                bk,
                ak,
                n,
            )[t]).after is None,
        forall|t: int|
            0 <= t < unpaired_after(bk, ak, m).len() ==> (#[trigger] unpaired_after(
                bk,
                ak,
                m,
            )[t]).before is None,
    decreases n + m,
{
    if n > 0 {
        lemma_unpaired_entries(bk, ak, n - 1, m);
        let prev = unpaired_before(bk, ak, n - 1);
        assert forall|t: int| 0 <= t < unpaired_before(bk, ak, n).len() implies (
        #[trigger] unpaired_before(bk, ak, n)[t]).after is None by {
            if t < prev.len() {
                assert(unpaired_before(bk, ak, n)[t] == prev[t]);
            }
        }
    }
    if m > 0 {
        lemma_unpaired_entries(bk, ak, n, m - 1);
        let prev = unpaired_after(bk, ak, m - 1);
        assert forall|t: int| 0 <= t < unpaired_after(bk, ak, m).len() implies (
        #[trigger] unpaired_after(bk, ak, m)[t]).before is None by {
            if t < prev.len() {
                assert(unpaired_after(bk, ak, m)[t] == prev[t]);
            }
        }
    }
}

/// The entry `e` pairs objects only where a key justifies it: both objects
/// have the same identifier and the entry is marked as matched by identifier,
/// or both have the same fallback key, the entry carries the fallback method,
/// and that key belongs to exactly one object left over on each side.
pub open spec fn pair_justified(
    bk: Seq<SpecMatchKey>,
    ak: Seq<SpecMatchKey>,
    method: MatchMethod,
    e: MatchedIndex,
) -> bool {
    match (e.before, e.after) {
        (Some(i), Some(j)) => {
            ||| e.method == Some(MatchMethod::ObjectId) && bk[i as int].primary
                == ak[j as int].primary
            ||| e.method == Some(method) && bk[i as int].fallback is Some && ak[j as int].fallback
                == bk[i as int].fallback && fallback_unique(bk, ak, bk[i as int].fallback->0)
        },
        _ => true,
    }
}

/// Every pair that the pairing makes is justified by a key (see
/// `pair_justified`): in particular a fallback key held by two objects left
/// over on either side never makes a pair.
pub proof fn lemma_match_items_pairs_justified(
    bk: Seq<SpecMatchKey>,
    ak: Seq<SpecMatchKey>,
    method: MatchMethod,
)
    requires
        bk.len() <= usize::MAX,
        ak.len() <= usize::MAX,
    ensures
        forall|t: int|
            0 <= t < spec_match_items(bk, ak, method).len() ==> pair_justified(
                bk,
                ak,
                method,
                #[trigger] spec_match_items(bk, ak, method)[t],
            ),
{
    let nb = bk.len() as int;
    let na = ak.len() as int;
    let p = primary_pairs(bk, ak, nb);
    let f = fallback_pairs(bk, ak, method, nb);
    let u = unpaired_before(bk, ak, nb);
    let v = unpaired_after(bk, ak, na);
    lemma_primary_pairs_entries(bk, ak, nb);
    lemma_fallback_pairs_entries(bk, ak, method, nb);
    lemma_unpaired_entries(bk, ak, nb, na);
    let s = spec_match_items(bk, ak, method);
    assert forall|t: int| 0 <= t < s.len() implies pair_justified(
        bk,
        ak,
        method,
        #[trigger] spec_match_items(bk, ak, method)[t],
    ) by {
        if t < p.len() {
            assert(s[t] == p[t]);
            let i = p[t].before->0 as int;
            let j = p[t].after->0 as int;
            assert(primary_partner(bk, ak, i) == Some(j));
            lemma_last_primary(ak, bk[i].primary, na);
            assert(ak[j].primary == bk[i].primary);
        } else if t < p.len() + f.len() {
            let t2 = t - p.len();
            assert(s[t] == f[t2]);
            let i = f[t2].before->0 as int;
            let j = f[t2].after->0 as int;
            assert(fallback_partner(bk, ak, i) == Some(j));
            lemma_last_fallback(ak, after_primary_flags(bk, ak), bk[i].fallback->0, na);
            assert(ak[j].fallback == bk[i].fallback);
        } else if t < p.len() + f.len() + u.len() {
            let t2 = t - p.len() - f.len();
            assert(s[t] == u[t2]);
            assert(u[t2].after is None);
        } else {
            let t2 = t - p.len() - f.len() - u.len();
            assert(s[t] == v[t2]);
            assert(v[t2].before is None);
        }
    }
}

/// An earlier object is paired by identifier whenever a later object has its
/// identifier and no earlier object before it has that identifier; its
/// partner is the last later object with that identifier.
pub proof fn lemma_match_items_identifier_first(
    bk: Seq<SpecMatchKey>,
    ak: Seq<SpecMatchKey>,
    method: MatchMethod,
    i: int,
    j: int,
)
    requires
        bk.len() <= usize::MAX,
        ak.len() <= usize::MAX,
        0 <= i < bk.len(),
        0 <= j < ak.len(),
        bk[i].primary == ak[j].primary,
        forall|x: int| 0 <= x < i ==> bk[x].primary != bk[i].primary,
    ensures
        exists|t: int|
            0 <= t < spec_match_items(bk, ak, method).len() && {
                let e = #[trigger] spec_match_items(bk, ak, method)[t];
                &&& e.before == Some(i as usize)
                &&& e.method == Some(MatchMethod::ObjectId)
                &&& e.after matches Some(j2) && ak[j2 as int].primary == bk[i].primary
                    && forall|y: int| j2 < y < ak.len() ==> ak[y].primary != bk[i].primary
            },
{
    let nb = bk.len() as int;
    let na = ak.len() as int;
    let k = bk[i].primary;
    lemma_first_primary(bk, k, nb);
    lemma_last_primary(ak, k, na);
    assert(first_primary(bk, k, nb) == Some(i));
    let j2 = last_primary(ak, k, na)->0;
    assert(primary_partner(bk, ak, i) == Some(j2));
    lemma_primary_pairs_counts(bk, ak, nb, i, 0);
    let p = primary_pairs(bk, ak, nb);
    lemma_primary_pairs_entries(bk, ak, nb);
    // The entry that names `i` among the pairs by primary key.
    let t = choose_entry(p, i);
    let s = spec_match_items(bk, ak, method);
    assert(s[t] == p[t]);
    assert(p[t].before == Some(i as usize));
}

/// An index of an entry of `ms` that names the earlier object `i`, where
/// there is one.
proof fn choose_entry(ms: Seq<MatchedIndex>, i: int) -> (t: int)
    requires
        0 <= i,
        count_before(ms, i) == 1,
    ensures
        0 <= t < ms.len(),
        ms[t].before matches Some(x) && x as int == i,
    decreases ms.len(),
{
    let last = ms.last();
    if last.before matches Some(x) && x as int == i {
        (ms.len() - 1) as int
    } else {
        let t = choose_entry(ms.drop_last(), i);
        assert(ms[t] == ms.drop_last()[t]);
        t
    }
}

/// Pairing a list of objects with distinct identifiers against itself pairs
/// each object with itself, by identifier.
pub proof fn lemma_match_items_identity(keys: Seq<SpecMatchKey>, method: MatchMethod)
    requires
        keys.len() <= usize::MAX,
        forall|a: int, b: int| 0 <= a < b < keys.len() ==> keys[a].primary != keys[b].primary,
    ensures
        spec_match_items(keys, keys, method) == Seq::new(
            keys.len(),
            |i: int|
                MatchedIndex {
                    before: Some(i as usize),
                    after: Some(i as usize),
                    method: Some(MatchMethod::ObjectId),
                },
        ),
{
    let n = keys.len() as int;
    assert forall|i: int| 0 <= i < n implies first_primary(keys, #[trigger] keys[i].primary, n)
        == Some(i) && last_primary(keys, keys[i].primary, n) == Some(i) by {
        lemma_first_primary(keys, keys[i].primary, n);
        lemma_last_primary(keys, keys[i].primary, n);
    }
    lemma_identity_primary_pairs(keys, n);
    lemma_identity_rest(keys, method, n);
    assert(spec_match_items(keys, keys, method) =~= primary_pairs(keys, keys, n));
}

proof fn lemma_identity_primary_pairs(keys: Seq<SpecMatchKey>, n: int)
    requires
        0 <= n <= keys.len() <= usize::MAX,
        forall|i: int|
            0 <= i < keys.len() ==> first_primary(
                keys,
                #[trigger] keys[i].primary,
                keys.len() as int,
            ) == Some(i) && last_primary(keys, keys[i].primary, keys.len() as int) == Some(i),
    ensures
        primary_pairs(keys, keys, n) == Seq::new(
            n as nat,
            |i: int|
                MatchedIndex {
                    before: Some(i as usize),
                    after: Some(i as usize),
                    method: Some(MatchMethod::ObjectId),
                },
        ),
    decreases n,
{
    if n > 0 {
        lemma_identity_primary_pairs(keys, n - 1);
        assert(primary_partner(keys, keys, n - 1) == Some(n - 1));
        assert(primary_pairs(keys, keys, n) =~= Seq::new(
            n as nat,
            |i: int|
                MatchedIndex {
                    before: Some(i as usize),
                    after: Some(i as usize),
                    method: Some(MatchMethod::ObjectId),
                },
        ));
    } else {
        assert(primary_pairs(keys, keys, n) =~= Seq::<MatchedIndex>::empty());
    }
}

proof fn lemma_identity_rest(keys: Seq<SpecMatchKey>, method: MatchMethod, n: int)
    requires
        0 <= n <= keys.len() <= usize::MAX,
        forall|i: int|
            0 <= i < keys.len() ==> first_primary(
                keys,
                #[trigger] keys[i].primary,
                keys.len() as int,
            ) == Some(i) && last_primary(keys, keys[i].primary, keys.len() as int) == Some(i),
    ensures
        fallback_pairs(keys, keys, method, n) == Seq::<MatchedIndex>::empty(),
        unpaired_before(keys, keys, n) == Seq::<MatchedIndex>::empty(),
        unpaired_after(keys, keys, n) == Seq::<MatchedIndex>::empty(),
    decreases n,
{
    if n > 0 {
        lemma_identity_rest(keys, method, n - 1);
        let x = n - 1;
        assert(primary_partner(keys, keys, x) == Some(x));
        assert(before_primary_used(keys, keys, x));
        assert(fallback_partner(keys, keys, x) is None);
        assert(before_paired(keys, keys, x));
        assert(after_primary_used(keys, keys, x, keys.len() as int));
        assert(after_paired(keys, keys, x));
        assert(fallback_pairs(keys, keys, method, n) =~= Seq::<MatchedIndex>::empty());
        assert(unpaired_before(keys, keys, n) =~= Seq::<MatchedIndex>::empty());
        assert(unpaired_after(keys, keys, n) =~= Seq::<MatchedIndex>::empty());
    }
}


// ---------------------------------------------------------------------------
// Comparing a revision with itself.

/// The report is of an object paired with an object of the same identifier,
/// matched by identifier, and found unchanged, with no field change.
pub open spec fn report_unchanged(c: SpecObjectChange) -> bool {
    &&& c.kind == ChangeKind::Unchanged
    &&& c.match_method == Some(MatchMethod::ObjectId)
    &&& c.fields.len() == 0
    &&& c.before_id is Some
    &&& c.before_id == c.after_id
}

/// Every report is of an object paired with itself and found unchanged (see
/// `report_unchanged`).
pub open spec fn all_unchanged(changes: Seq<SpecObjectChange>) -> bool {
    forall|t: int| 0 <= t < changes.len() ==> report_unchanged(#[trigger] changes[t])
}

/// No two of the objects have the same identifier.
pub open spec fn distinct_identifiers(keys: Seq<SpecMatchKey>) -> bool {
    forall|a: int, b: int| 0 <= a < b < keys.len() ==> keys[a].primary != keys[b].primary
}

/// Neither coordinate of the point is NaN.
pub open spec fn point_is_number(p: Point) -> bool {
    !p.x_mm.is_nan() && !p.y_mm.is_nan()
}

proof fn lemma_all_unchanged_concat(a: Seq<SpecObjectChange>, b: Seq<SpecObjectChange>)
    requires
        all_unchanged(a),
        all_unchanged(b),
    ensures
        all_unchanged(a + b),
{
    assert forall|t: int| 0 <= t < (a + b).len() implies report_unchanged(
        #[trigger] (a + b)[t],
    ) by {
        if t < a.len() {
            assert((a + b)[t] == a[t]);
        } else {
            assert((a + b)[t] == b[t - a.len()]);
        }
    }
}

/// The pairing of a list of objects with itself, object by object.
pub open spec fn identity_pairing(n: nat) -> Seq<MatchedIndex> {
    Seq::new(
        n,
        |i: int|
            MatchedIndex {
                before: Some(i as usize),
                after: Some(i as usize),
                method: Some(MatchMethod::ObjectId),
            },
    )
}

/// How many reports the first `n` objects give, each compared with itself.
pub open spec fn self_report_count<T: Comparable>(b: Seq<T::V>, n: int) -> nat
    decreases n,
{
    if n <= 0 {
        0
    } else {
        self_report_count::<T>(b, n - 1) + T::spec_pair_reports(
            b[n - 1],
            b[n - 1],
            MatchMethod::ObjectId,
        ).len()
    }
}

/// Objects that each give one report, compared with themselves, give as
/// many reports as there are objects.
proof fn lemma_self_report_count_ones<T: Comparable>(b: Seq<T::V>, n: int)
    requires
        0 <= n <= b.len(),
        forall|i: int|
            0 <= i < b.len() ==> (#[trigger] T::spec_pair_reports(
                b[i],
                b[i],
                MatchMethod::ObjectId,
            )).len() == 1,
    ensures
        self_report_count::<T>(b, n) == n,
    decreases n,
{
    if n > 0 {
        lemma_self_report_count_ones::<T>(b, n - 1);
    }
}

proof fn lemma_self_entries<T: Comparable>(b: Seq<T::V>, n: int)
    requires
        0 <= n <= b.len() <= usize::MAX,
        forall|i: int|
            0 <= i < b.len() ==> all_unchanged(
                #[trigger] T::spec_pair_reports(b[i], b[i], MatchMethod::ObjectId),
            ),
    ensures
        all_unchanged(entries_reports::<T>(b, b, identity_pairing(b.len()), n)),
        entries_reports::<T>(b, b, identity_pairing(b.len()), n).len() == self_report_count::<T>(
            b,
            n,
        ),
    decreases n,
{
    let ms = identity_pairing(b.len());
    if n > 0 {
        lemma_self_entries::<T>(b, n - 1);
        let e = ms[n - 1];
        assert(entry_reports::<T>(b, b, e) == T::spec_pair_reports(
            b[n - 1],
            b[n - 1],
            MatchMethod::ObjectId,
        ));
        lemma_all_unchanged_concat(
            entries_reports::<T>(b, b, ms, n - 1),
            entry_reports::<T>(b, b, e),
        );
    }
}

/// Comparing the objects of one kind with themselves, where no two of them
/// share an identifier and each one compared with itself is reported
/// unchanged, reports every object unchanged, matched by identifier.
pub proof fn lemma_self_changes<T: Comparable>(b: Seq<T::V>, method: MatchMethod)
    requires
        b.len() <= usize::MAX,
        distinct_identifiers(object_keys::<T>(b)),
        forall|i: int|
            0 <= i < b.len() ==> all_unchanged(
                #[trigger] T::spec_pair_reports(b[i], b[i], MatchMethod::ObjectId),
            ),
    ensures
        all_unchanged(object_changes::<T>(b, b, method)),
        object_changes::<T>(b, b, method).len() == self_report_count::<T>(b, b.len() as int),
{
    lemma_match_items_identity(object_keys::<T>(b), method);
    assert(spec_match_items(object_keys::<T>(b), object_keys::<T>(b), method) =~= identity_pairing(
        b.len(),
    ));
    lemma_self_entries::<T>(b, b.len() as int);
}

/// The symbol's position and rotation are numbers.
pub open spec fn symbol_is_number(s: SpecSymbol) -> bool {
    point_is_number(s.position) && !s.rotation.degrees.is_nan()
}

/// The wire's points are numbers.
pub open spec fn wire_is_number(w: SpecWire) -> bool {
    forall|i: int| 0 <= i < w.points.len() ==> point_is_number(#[trigger] w.points[i])
}

/// The label's position and rotation are numbers.
pub open spec fn label_is_number(l: SpecLabel) -> bool {
    point_is_number(l.position) && !l.rotation.degrees.is_nan()
}

/// Comparing a schematic with itself gives one report per object, each of an
/// object paired with itself (the same identifier before and after), matched
/// by identifier and unchanged with no field change, and a summary that counts
/// them all as unchanged; provided that the objects of each kind have distinct
/// identifiers and that no coordinate or angle is NaN (a NaN equals nothing,
/// itself included).
pub proof fn lemma_schematic_self_diff(s: SpecSchematic)
    requires
        s.symbols.len() <= usize::MAX,
        s.wires.len() <= usize::MAX,
        s.junctions.len() <= usize::MAX,
        s.labels.len() <= usize::MAX,
        s.nets.len() <= usize::MAX,
        forall|a: int, b: int| 0 <= a < b < s.symbols.len() ==> s.symbols[a].id != s.symbols[b].id,
        forall|a: int, b: int| 0 <= a < b < s.wires.len() ==> s.wires[a].id != s.wires[b].id,
        forall|a: int, b: int|
            0 <= a < b < s.junctions.len() ==> s.junctions[a].id != s.junctions[b].id,
        forall|a: int, b: int| 0 <= a < b < s.labels.len() ==> s.labels[a].id != s.labels[b].id,
        forall|a: int, b: int| 0 <= a < b < s.nets.len() ==> s.nets[a].id != s.nets[b].id,
        forall|i: int| 0 <= i < s.symbols.len() ==> symbol_is_number(#[trigger] s.symbols[i]),
        forall|i: int| 0 <= i < s.wires.len() ==> wire_is_number(#[trigger] s.wires[i]),
        forall|i: int|
            0 <= i < s.junctions.len() ==> point_is_number(#[trigger] s.junctions[i].position),
        forall|i: int| 0 <= i < s.labels.len() ==> label_is_number(#[trigger] s.labels[i]),
        s.symbols.len() + s.wires.len() + s.junctions.len() + s.labels.len() + s.nets.len()
            <= usize::MAX,
    ensures
        all_unchanged(schematic_changes(s, s)),
        schematic_changes(s, s).len() == s.symbols.len() + s.wires.len() + s.junctions.len()
            + s.labels.len() + s.nets.len(),
        spec_report(schematic_changes(s, s)).summary.unchanged == schematic_changes(s, s).len(),
{
    assert forall|i: int| 0 <= i < s.symbols.len() implies all_unchanged(
        #[trigger] <Symbol as Comparable>::spec_pair_reports(
            s.symbols[i],
            s.symbols[i],
            MatchMethod::ObjectId,
        ),
    ) by {
        assert(super::schematic::symbol_fields(s.symbols[i], s.symbols[i]) =~= seq![]);
    }
    assert forall|i: int| 0 <= i < s.wires.len() implies all_unchanged(
        #[trigger] <Wire as Comparable>::spec_pair_reports(
            s.wires[i],
            s.wires[i],
            MatchMethod::ObjectId,
        ),
    ) by {
        let w = s.wires[i];
        assert(wire_is_number(w));
        assert(crate::model::common::same_points(w.points, w.points));
        assert(super::schematic::wire_fields(w, w) =~= seq![]);
    }
    assert forall|i: int| 0 <= i < s.junctions.len() implies all_unchanged(
        #[trigger] <Junction as Comparable>::spec_pair_reports(
            s.junctions[i],
            s.junctions[i],
            MatchMethod::ObjectId,
        ),
    ) by {
        assert(super::schematic::junction_fields(s.junctions[i], s.junctions[i]) =~= seq![]);
    }
    assert forall|i: int| 0 <= i < s.labels.len() implies all_unchanged(
        #[trigger] <Label as Comparable>::spec_pair_reports(
            s.labels[i],
            s.labels[i],
            MatchMethod::ObjectId,
        ),
    ) by {
        assert(super::schematic::label_fields(s.labels[i], s.labels[i]) =~= seq![]);
    }
    assert forall|i: int| 0 <= i < s.nets.len() implies all_unchanged(
        #[trigger] <SchematicNet as Comparable>::spec_pair_reports(
            s.nets[i],
            s.nets[i],
            MatchMethod::ObjectId,
        ),
    ) by {
        assert(super::schematic::net_fields(s.nets[i], s.nets[i]) =~= seq![]);
    }
    lemma_self_changes::<Symbol>(s.symbols, MatchMethod::Reference);
    lemma_self_changes::<Wire>(s.wires, MatchMethod::Reference);
    lemma_self_changes::<Junction>(s.junctions, MatchMethod::Reference);
    lemma_self_changes::<Label>(s.labels, MatchMethod::Name);
    lemma_self_changes::<SchematicNet>(s.nets, MatchMethod::Name);
    let c1 = object_changes::<Symbol>(s.symbols, s.symbols, MatchMethod::Reference);
    let c2 = object_changes::<Wire>(s.wires, s.wires, MatchMethod::Reference);
    let c3 = object_changes::<Junction>(s.junctions, s.junctions, MatchMethod::Reference);
    let c4 = object_changes::<Label>(s.labels, s.labels, MatchMethod::Name);
    let c5 = object_changes::<SchematicNet>(s.nets, s.nets, MatchMethod::Name);
    lemma_all_unchanged_concat(c1, c2);
    lemma_all_unchanged_concat(c1 + c2, c3);
    lemma_all_unchanged_concat(c1 + c2 + c3, c4);
    lemma_all_unchanged_concat(c1 + c2 + c3 + c4, c5);
    lemma_self_report_count_ones::<Symbol>(s.symbols, s.symbols.len() as int);
    lemma_self_report_count_ones::<Wire>(s.wires, s.wires.len() as int);
    lemma_self_report_count_ones::<Junction>(s.junctions, s.junctions.len() as int);
    lemma_self_report_count_ones::<Label>(s.labels, s.labels.len() as int);
    lemma_self_report_count_ones::<SchematicNet>(s.nets, s.nets.len() as int);
    let all = c1 + c2 + c3 + c4 + c5;
    assert(all == schematic_changes(s, s));
    lemma_unchanged_kind_count(all, all.len() as int);
}


/// The pad's position, rotation, size and drill are numbers.
pub open spec fn pad_is_number(p: SpecPad) -> bool {
    &&& point_is_number(p.position)
    &&& !p.rotation.degrees.is_nan()
    &&& !p.size.width_mm.is_nan()
    &&& !p.size.height_mm.is_nan()
    &&& (p.drill_mm matches Some(d) ==> !d.is_nan())
}

/// The footprint's position and rotation are numbers, and so are its pads,
/// and no two of its pads share an identifier.
pub open spec fn footprint_is_number(f: SpecFootprint) -> bool {
    &&& point_is_number(f.position)
    &&& !f.rotation.degrees.is_nan()
    &&& forall|i: int| 0 <= i < f.pads.len() ==> pad_is_number(#[trigger] f.pads[i])
    &&& forall|a: int, b: int| 0 <= a < b < f.pads.len() ==> f.pads[a].id != f.pads[b].id
}

/// The track's end points and width are numbers.
pub open spec fn track_is_number(t: SpecTrack) -> bool {
    point_is_number(t.start) && point_is_number(t.end) && !t.width_mm.is_nan()
}

/// The via's position, diameter and drill are numbers.
pub open spec fn via_is_number(v: SpecVia) -> bool {
    point_is_number(v.position) && !v.diameter_mm.is_nan() && !v.drill_mm.is_nan()
}

/// The points of the board edge are numbers.
pub open spec fn edge_is_number(e: SpecBoardEdge) -> bool {
    match e {
        SpecBoardEdge::Line { start, end, .. } => point_is_number(start) && point_is_number(end),
        SpecBoardEdge::Arc { start, mid, end, .. } => point_is_number(start) && point_is_number(
            mid,
        ) && point_is_number(end),
    }
}

proof fn lemma_pad_self_entries(f: SpecFootprint, n: int)
    requires
        0 <= n <= f.pads.len() <= usize::MAX,
        forall|i: int| 0 <= i < f.pads.len() ==> pad_is_number(#[trigger] f.pads[i]),
    ensures
        all_unchanged(pad_entries_reports(f, f, identity_pairing(f.pads.len()), n)),
        pad_entries_reports(f, f, identity_pairing(f.pads.len()), n).len() == n,
    decreases n,
{
    let ms = identity_pairing(f.pads.len());
    if n > 0 {
        lemma_pad_self_entries(f, n - 1);
        let p = f.pads[n - 1];
        assert(pad_is_number(p));
        assert(super::pcb::pad_fields(p, p) =~= seq![]);
        lemma_all_unchanged_concat(
            pad_entries_reports(f, f, ms, n - 1),
            super::pcb::pad_entry_reports(f, f, ms[n - 1]),
        );
    }
}

/// A footprint compared with itself is reported unchanged, and so are its pads.
proof fn lemma_footprint_self(f: SpecFootprint)
    requires
        f.pads.len() <= usize::MAX,
        footprint_is_number(f),
    ensures
        all_unchanged(
            <Footprint as Comparable>::spec_pair_reports(f, f, MatchMethod::ObjectId),
        ),
        <Footprint as Comparable>::spec_pair_reports(f, f, MatchMethod::ObjectId).len() == 1
            + f.pads.len(),
{
    lemma_match_items_identity(pad_keys(f.pads), MatchMethod::Reference);
    assert(spec_match_items(pad_keys(f.pads), pad_keys(f.pads), MatchMethod::Reference)
        =~= identity_pairing(f.pads.len()));
    lemma_pad_self_entries(f, f.pads.len() as int);
    assert(footprint_fields(f, f) =~= seq![]);
    let head = seq![
        spec_compared(
            "pcb-footprint"@,
            first_present(
                non_empty_text(f.reference),
                non_empty_text(f.reference),
            ),
            f.id,
            f.id,
            MatchMethod::ObjectId,
            footprint_fields(f, f),
        ),
    ];
    lemma_all_unchanged_concat(head, pad_changes(f, f));
}

/// How many pads the first `n` footprints have.
pub open spec fn pad_count(fs: Seq<SpecFootprint>, n: int) -> nat
    decreases n,
{
    if n <= 0 {
        0
    } else {
        pad_count(fs, n - 1) + fs[n - 1].pads.len()
    }
}

proof fn lemma_footprint_report_count(fs: Seq<SpecFootprint>, n: int)
    requires
        0 <= n <= fs.len(),
        forall|i: int|
            0 <= i < fs.len() ==> (#[trigger] <Footprint as Comparable>::spec_pair_reports(
                fs[i],
                fs[i],
                MatchMethod::ObjectId,
            )).len() == 1 + fs[i].pads.len(),
    ensures
        self_report_count::<Footprint>(fs, n) == n + pad_count(fs, n),
    decreases n,
{
    if n > 0 {
        lemma_footprint_report_count(fs, n - 1);
    }
}

/// A list of reports that are all unchanged counts each of them as unchanged.
proof fn lemma_unchanged_kind_count(c: Seq<SpecObjectChange>, n: int)
    requires
        0 <= n <= c.len(),
        all_unchanged(c),
    ensures
        super::types::kind_count(c, ChangeKind::Unchanged, n) == n,
    decreases n,
{
    if n > 0 {
        lemma_unchanged_kind_count(c, n - 1);
        assert(report_unchanged(c[n - 1]));
    }
}

/// Comparing a board with itself gives one report per object, pads included,
/// each of an object paired with itself (the same identifier before and
/// after), matched by identifier and unchanged with no field change, and a
/// summary that counts them all as unchanged; provided that the objects of
/// each kind (and the pads of each footprint) have distinct identifiers and
/// that no coordinate, angle or dimension is NaN (a NaN equals nothing, itself
/// included).
pub proof fn lemma_pcb_self_diff(b: SpecPcb)
    requires
        b.footprints.len() <= usize::MAX,
        b.tracks.len() <= usize::MAX,
        b.vias.len() <= usize::MAX,
        b.nets.len() <= usize::MAX,
        b.board_outline.len() <= usize::MAX,
        forall|i: int| 0 <= i < b.footprints.len() ==> (#[trigger] b.footprints[i]).pads.len()
            <= usize::MAX,
        forall|x: int, y: int|
            0 <= x < y < b.footprints.len() ==> b.footprints[x].id != b.footprints[y].id,
        forall|x: int, y: int| 0 <= x < y < b.tracks.len() ==> b.tracks[x].id != b.tracks[y].id,
        forall|x: int, y: int| 0 <= x < y < b.vias.len() ==> b.vias[x].id != b.vias[y].id,
        forall|x: int, y: int| 0 <= x < y < b.nets.len() ==> b.nets[x].id != b.nets[y].id,
        forall|x: int, y: int|
            0 <= x < y < b.board_outline.len() ==> b.board_outline[x].id()
                != b.board_outline[y].id(),
        forall|i: int|
            0 <= i < b.footprints.len() ==> footprint_is_number(#[trigger] b.footprints[i]),
        forall|i: int| 0 <= i < b.tracks.len() ==> track_is_number(#[trigger] b.tracks[i]),
        forall|i: int| 0 <= i < b.vias.len() ==> via_is_number(#[trigger] b.vias[i]),
        forall|i: int|
            0 <= i < b.board_outline.len() ==> edge_is_number(#[trigger] b.board_outline[i]),
        b.footprints.len() + pad_count(b.footprints, b.footprints.len() as int) + b.tracks.len()
            + b.vias.len() + b.nets.len() + b.board_outline.len() <= usize::MAX,
    ensures
        all_unchanged(pcb_changes(b, b)),
        pcb_changes(b, b).len() == b.footprints.len() + pad_count(
            b.footprints,
            b.footprints.len() as int,
        ) + b.tracks.len() + b.vias.len() + b.nets.len() + b.board_outline.len(),
        spec_report(pcb_changes(b, b)).summary.unchanged == pcb_changes(b, b).len(),
{
    assert forall|i: int| 0 <= i < b.footprints.len() implies all_unchanged(
        #[trigger] <Footprint as Comparable>::spec_pair_reports(
            b.footprints[i],
            b.footprints[i],
            MatchMethod::ObjectId,
        ),
    ) && <Footprint as Comparable>::spec_pair_reports(
        b.footprints[i],
        b.footprints[i],
        MatchMethod::ObjectId,
    ).len() == 1 + b.footprints[i].pads.len() by {
        lemma_footprint_self(b.footprints[i]);
    }
    assert forall|i: int| 0 <= i < b.tracks.len() implies all_unchanged(
        #[trigger] <Track as Comparable>::spec_pair_reports(
            b.tracks[i],
            b.tracks[i],
            MatchMethod::ObjectId,
        ),
    ) by {
        assert(super::pcb::track_fields(b.tracks[i], b.tracks[i]) =~= seq![]);
    }
    assert forall|i: int| 0 <= i < b.vias.len() implies all_unchanged(
        #[trigger] <Via as Comparable>::spec_pair_reports(
            b.vias[i],
            b.vias[i],
            MatchMethod::ObjectId,
        ),
    ) by {
        assert(super::pcb::via_fields(b.vias[i], b.vias[i]) =~= seq![]);
    }
    assert forall|i: int| 0 <= i < b.nets.len() implies all_unchanged(
        #[trigger] <PcbNet as Comparable>::spec_pair_reports(
            b.nets[i],
            b.nets[i],
            MatchMethod::ObjectId,
        ),
    ) by {
        assert(super::pcb::net_fields(b.nets[i], b.nets[i]) =~= seq![]);
    }
    assert forall|i: int| 0 <= i < b.board_outline.len() implies all_unchanged(
        #[trigger] <BoardEdge as Comparable>::spec_pair_reports(
            b.board_outline[i],
            b.board_outline[i],
            MatchMethod::ObjectId,
        ),
    ) by {
        assert(super::pcb::edge_fields(b.board_outline[i], b.board_outline[i]) =~= seq![]);
    }
    lemma_self_changes::<Footprint>(b.footprints, MatchMethod::Reference);
    lemma_self_changes::<Track>(b.tracks, MatchMethod::Reference);
    lemma_self_changes::<Via>(b.vias, MatchMethod::Reference);
    lemma_self_changes::<PcbNet>(b.nets, MatchMethod::Name);
    lemma_self_changes::<BoardEdge>(b.board_outline, MatchMethod::Reference);
    let c1 = object_changes::<Footprint>(b.footprints, b.footprints, MatchMethod::Reference);
    let c2 = object_changes::<Track>(b.tracks, b.tracks, MatchMethod::Reference);
    let c3 = object_changes::<Via>(b.vias, b.vias, MatchMethod::Reference);
    let c4 = object_changes::<PcbNet>(b.nets, b.nets, MatchMethod::Name);
    let c5 = object_changes::<BoardEdge>(b.board_outline, b.board_outline, MatchMethod::Reference);
    lemma_all_unchanged_concat(c1, c2);
    lemma_all_unchanged_concat(c1 + c2, c3);
    lemma_all_unchanged_concat(c1 + c2 + c3, c4);
    lemma_all_unchanged_concat(c1 + c2 + c3 + c4, c5);
    lemma_footprint_report_count(b.footprints, b.footprints.len() as int);
    lemma_self_report_count_ones::<Track>(b.tracks, b.tracks.len() as int);
    lemma_self_report_count_ones::<Via>(b.vias, b.vias.len() as int);
    lemma_self_report_count_ones::<PcbNet>(b.nets, b.nets.len() as int);
    lemma_self_report_count_ones::<BoardEdge>(b.board_outline, b.board_outline.len() as int);
    let all = c1 + c2 + c3 + c4 + c5;
    assert(all == pcb_changes(b, b));
    lemma_unchanged_kind_count(all, all.len() as int);
}


// ---------------------------------------------------------------------------
// Every report is well formed.

/// No listed field change has two equal values.
pub open spec fn fields_differ(fields: Seq<SpecFieldChange>) -> bool {
    forall|k: int|
        0 <= k < fields.len() ==> !same_value(#[trigger] fields[k].before, fields[k].after)
}

/// A report is well formed: an added report names only a later object and a
/// removed report only an earlier one, both with no match method and no field
/// change; a report on a pair names both objects and how they were matched,
/// is modified exactly when it lists a field change, and lists only fields
/// whose two values differ.
pub open spec fn report_well_formed(c: SpecObjectChange) -> bool {
    &&& match c.kind {
        ChangeKind::Added => c.before_id is None && c.after_id is Some && c.match_method is None
            && c.fields.len() == 0,
        ChangeKind::Removed => c.before_id is Some && c.after_id is None && c.match_method is None
            && c.fields.len() == 0,
        ChangeKind::Modified => c.before_id is Some && c.after_id is Some && c.match_method is Some
            && c.fields.len() > 0,
        ChangeKind::Unchanged => c.before_id is Some && c.after_id is Some
            && c.match_method is Some && c.fields.len() == 0,
    }
    &&& fields_differ(c.fields)
}

/// Every report of the list is well formed.
pub open spec fn all_well_formed(changes: Seq<SpecObjectChange>) -> bool {
    forall|t: int| 0 <= t < changes.len() ==> report_well_formed(#[trigger] changes[t])
}

proof fn lemma_field_checks_differ()
    ensures
        forall|name: Seq<char>, a: SpecFieldValue, b: SpecFieldValue|
            fields_differ(#[trigger] field_check(name, a, b)),
        forall|x: Seq<SpecFieldChange>, y: Seq<SpecFieldChange>|
            fields_differ(x) && fields_differ(y) ==> fields_differ(#[trigger] (x + y)),
{
    assert forall|x: Seq<SpecFieldChange>, y: Seq<SpecFieldChange>|
        fields_differ(x) && fields_differ(y) implies fields_differ(#[trigger] (x + y)) by {
        assert forall|k: int| 0 <= k < (x + y).len() implies !same_value(
            #[trigger] (x + y)[k].before,
            (x + y)[k].after,
        ) by {
            if k < x.len() {
                assert((x + y)[k] == x[k]);
            } else {
                assert((x + y)[k] == y[k - x.len()]);
            }
        }
    }
}

proof fn lemma_all_well_formed_concat(a: Seq<SpecObjectChange>, b: Seq<SpecObjectChange>)
    requires
        all_well_formed(a),
        all_well_formed(b),
    ensures
        all_well_formed(a + b),
{
    assert forall|t: int| 0 <= t < (a + b).len() implies report_well_formed(
        #[trigger] (a + b)[t],
    ) by {
        if t < a.len() {
            assert((a + b)[t] == a[t]);
        } else {
            assert((a + b)[t] == b[t - a.len()]);
        }
    }
}

/// The reports on any pairing of objects of one kind are well formed when the
/// reports on each pair, each earlier and each later object are.
proof fn lemma_entries_well_formed<T: Comparable>(
    b: Seq<T::V>,
    a: Seq<T::V>,
    ms: Seq<MatchedIndex>,
    n: int,
)
    requires
        0 <= n <= ms.len(),
        forall|x: T::V, y: T::V, m: MatchMethod|
            all_well_formed(#[trigger] T::spec_pair_reports(x, y, m)),
        forall|x: T::V| all_well_formed(#[trigger] T::spec_removed_reports(x)),
        forall|x: T::V| all_well_formed(#[trigger] T::spec_added_reports(x)),
    ensures
        all_well_formed(entries_reports::<T>(b, a, ms, n)),
    decreases n,
{
    if n > 0 {
        lemma_entries_well_formed::<T>(b, a, ms, n - 1);
        let e = ms[n - 1];
        let r = entry_reports::<T>(b, a, e);
        assert(all_well_formed(r)) by {
            match (e.before, e.after) {
                (Some(i), Some(j)) => {
                    assert(r == T::spec_pair_reports(b[i as int], a[j as int], e.method->0));
                },
                (Some(i), None) => {
                    assert(r == T::spec_removed_reports(b[i as int]));
                },
                (None, Some(j)) => {
                    assert(r == T::spec_added_reports(a[j as int]));
                },
                (None, None) => {},
            }
        }
        lemma_all_well_formed_concat(entries_reports::<T>(b, a, ms, n - 1), r);
    }
}

proof fn lemma_object_changes_well_formed<T: Comparable>(
    b: Seq<T::V>,
    a: Seq<T::V>,
    method: MatchMethod,
)
    requires
        forall|x: T::V, y: T::V, m: MatchMethod|
            all_well_formed(#[trigger] T::spec_pair_reports(x, y, m)),
        forall|x: T::V| all_well_formed(#[trigger] T::spec_removed_reports(x)),
        forall|x: T::V| all_well_formed(#[trigger] T::spec_added_reports(x)),
    ensures
        all_well_formed(object_changes::<T>(b, a, method)),
{
    let ms = super::objects::object_pairing::<T>(b, a, method);
    lemma_entries_well_formed::<T>(b, a, ms, ms.len() as int);
}

/// Every report of the diff of two schematics is well formed (see
/// `report_well_formed`).
pub proof fn lemma_schematic_reports_well_formed(b: SpecSchematic, a: SpecSchematic)
    ensures
        all_well_formed(schematic_changes(b, a)),
{
    lemma_field_checks_differ();
    assert forall|x: SpecSymbol, y: SpecSymbol, m: MatchMethod| all_well_formed(
        #[trigger] <Symbol as Comparable>::spec_pair_reports(x, y, m),
    ) by {
        assert(fields_differ(super::schematic::symbol_fields(x, y)));
    }
    assert forall|x: SpecWire, y: SpecWire, m: MatchMethod| all_well_formed(
        #[trigger] <Wire as Comparable>::spec_pair_reports(x, y, m),
    ) by {
        assert(fields_differ(super::schematic::wire_fields(x, y)));
    }
    assert forall|x: SpecJunction, y: SpecJunction, m: MatchMethod| all_well_formed(
        #[trigger] <Junction as Comparable>::spec_pair_reports(x, y, m),
    ) by {
        assert(fields_differ(super::schematic::junction_fields(x, y)));
    }
    assert forall|x: SpecLabel, y: SpecLabel, m: MatchMethod| all_well_formed(
        #[trigger] <Label as Comparable>::spec_pair_reports(x, y, m),
    ) by {
        assert(fields_differ(super::schematic::label_fields(x, y)));
    }
    assert forall|x: SpecSchematicNet, y: SpecSchematicNet, m: MatchMethod| all_well_formed(
        #[trigger] <SchematicNet as Comparable>::spec_pair_reports(x, y, m),
    ) by {
        assert(fields_differ(super::schematic::net_fields(x, y)));
    }
    lemma_object_changes_well_formed::<Symbol>(b.symbols, a.symbols, MatchMethod::Reference);
    lemma_object_changes_well_formed::<Wire>(b.wires, a.wires, MatchMethod::Reference);
    lemma_object_changes_well_formed::<Junction>(
        b.junctions,
        a.junctions,
        MatchMethod::Reference,
    );
    lemma_object_changes_well_formed::<Label>(b.labels, a.labels, MatchMethod::Name);
    lemma_object_changes_well_formed::<SchematicNet>(b.nets, a.nets, MatchMethod::Name);
    let c1 = object_changes::<Symbol>(b.symbols, a.symbols, MatchMethod::Reference);
    let c2 = object_changes::<Wire>(b.wires, a.wires, MatchMethod::Reference);
    let c3 = object_changes::<Junction>(b.junctions, a.junctions, MatchMethod::Reference);
    let c4 = object_changes::<Label>(b.labels, a.labels, MatchMethod::Name);
    let c5 = object_changes::<SchematicNet>(b.nets, a.nets, MatchMethod::Name);
    lemma_all_well_formed_concat(c1, c2);
    lemma_all_well_formed_concat(c1 + c2, c3);
    lemma_all_well_formed_concat(c1 + c2 + c3, c4);
    lemma_all_well_formed_concat(c1 + c2 + c3 + c4, c5);
}

proof fn lemma_pad_entries_well_formed(
    b: SpecFootprint,
    a: SpecFootprint,
    ms: Seq<MatchedIndex>,
    n: int,
)
    requires
        0 <= n <= ms.len(),
    ensures
        all_well_formed(pad_entries_reports(b, a, ms, n)),
    decreases n,
{
    if n > 0 {
        lemma_pad_entries_well_formed(b, a, ms, n - 1);
        lemma_field_checks_differ();
        let e = ms[n - 1];
        match (e.before, e.after) {
            (Some(i), Some(j)) => {
                assert(fields_differ(super::pcb::pad_fields(b.pads[i as int], a.pads[j as int])));
            },
            _ => {},
        }
        lemma_all_well_formed_concat(
            pad_entries_reports(b, a, ms, n - 1),
            pad_entry_reports(b, a, e),
        );
    }
}

/// Every report of the diff of two boards, pads included, is well formed
/// (see `report_well_formed`).
pub proof fn lemma_pcb_reports_well_formed(b: SpecPcb, a: SpecPcb)
    ensures
        all_well_formed(pcb_changes(b, a)),
{
    lemma_field_checks_differ();
    assert forall|x: SpecFootprint, y: SpecFootprint, m: MatchMethod| all_well_formed(
        #[trigger] <Footprint as Comparable>::spec_pair_reports(x, y, m),
    ) by {
        assert(fields_differ(footprint_fields(x, y)));
        let ms = spec_match_items(pad_keys(x.pads), pad_keys(y.pads), MatchMethod::Reference);
        lemma_pad_entries_well_formed(x, y, ms, ms.len() as int);
        lemma_all_well_formed_concat(
            seq![
                spec_compared(
                    "pcb-footprint"@,
                    first_present(
                        non_empty_text(y.reference),
                        non_empty_text(x.reference),
                    ),
                    x.id,
                    y.id,
                    m,
                    footprint_fields(x, y),
                ),
            ],
            pad_changes(x, y),
        );
    }
    assert forall|x: SpecFootprint| all_well_formed(
        #[trigger] <Footprint as Comparable>::spec_removed_reports(x),
    ) by {
        assert(all_well_formed(pad_removals(x)));
        lemma_all_well_formed_concat(
            seq![spec_removed("pcb-footprint"@, non_empty_text(x.reference), x.id)],
            pad_removals(x),
        );
    }
    assert forall|x: SpecFootprint| all_well_formed(
        #[trigger] <Footprint as Comparable>::spec_added_reports(x),
    ) by {
        assert(all_well_formed(pad_additions(x)));
        lemma_all_well_formed_concat(
            seq![spec_added("pcb-footprint"@, non_empty_text(x.reference), x.id)],
            pad_additions(x),
        );
    }
    assert forall|x: SpecTrack, y: SpecTrack, m: MatchMethod| all_well_formed(
        #[trigger] <Track as Comparable>::spec_pair_reports(x, y, m),
    ) by {
        assert(fields_differ(super::pcb::track_fields(x, y)));
    }
    assert forall|x: SpecVia, y: SpecVia, m: MatchMethod| all_well_formed(
        #[trigger] <Via as Comparable>::spec_pair_reports(x, y, m),
    ) by {
        assert(fields_differ(super::pcb::via_fields(x, y)));
    }
    assert forall|x: SpecPcbNet, y: SpecPcbNet, m: MatchMethod| all_well_formed(
        #[trigger] <PcbNet as Comparable>::spec_pair_reports(x, y, m),
    ) by {
        assert(fields_differ(super::pcb::net_fields(x, y)));
    }
    assert forall|x: SpecBoardEdge, y: SpecBoardEdge, m: MatchMethod| all_well_formed(
        #[trigger] <BoardEdge as Comparable>::spec_pair_reports(x, y, m),
    ) by {
        assert(fields_differ(super::pcb::edge_fields(x, y)));
    }
    lemma_object_changes_well_formed::<Footprint>(
        b.footprints,
        a.footprints,
        MatchMethod::Reference,
    );
    lemma_object_changes_well_formed::<Track>(b.tracks, a.tracks, MatchMethod::Reference);
    lemma_object_changes_well_formed::<Via>(b.vias, a.vias, MatchMethod::Reference);
    lemma_object_changes_well_formed::<PcbNet>(b.nets, a.nets, MatchMethod::Name);
    lemma_object_changes_well_formed::<BoardEdge>(
        b.board_outline,
        a.board_outline,
        MatchMethod::Reference,
    );
    let c1 = object_changes::<Footprint>(b.footprints, a.footprints, MatchMethod::Reference);
    let c2 = object_changes::<Track>(b.tracks, a.tracks, MatchMethod::Reference);
    let c3 = object_changes::<Via>(b.vias, a.vias, MatchMethod::Reference);
    let c4 = object_changes::<PcbNet>(b.nets, a.nets, MatchMethod::Name);
    let c5 = object_changes::<BoardEdge>(b.board_outline, a.board_outline, MatchMethod::Reference);
    lemma_all_well_formed_concat(c1, c2);
    lemma_all_well_formed_concat(c1 + c2, c3);
    lemma_all_well_formed_concat(c1 + c2 + c3, c4);
    lemma_all_well_formed_concat(c1 + c2 + c3 + c4, c5);
}


// ---------------------------------------------------------------------------
// Swapping the two revisions.

/// The pairing `ms` lists the entry that pairs the earlier object `i` with
/// the later object `j` by `m`.
pub open spec fn pair_listed(ms: Seq<MatchedIndex>, i: int, j: int, m: MatchMethod) -> bool {
    exists|t: int|
        0 <= t < ms.len() && #[trigger] ms[t] == (MatchedIndex {
            before: Some(i as usize),
            after: Some(j as usize),
            method: Some(m),
        })
}

/// The pairing lists a pair exactly where the earlier object's primary or
/// fallback partner is the later object, with the method of that pairing.
proof fn lemma_pair_membership(
    bk: Seq<SpecMatchKey>,
    ak: Seq<SpecMatchKey>,
    fm: MatchMethod,
    i: int,
    j: int,
    m: MatchMethod,
)
    requires
        bk.len() <= usize::MAX,
        ak.len() <= usize::MAX,
        0 <= i < bk.len(),
        0 <= j < ak.len(),
    ensures
        pair_listed(spec_match_items(bk, ak, fm), i, j, m) <==> ((m == MatchMethod::ObjectId
            && primary_partner(bk, ak, i) == Some(j)) || (m == fm && fallback_partner(bk, ak, i)
            == Some(j))),
{
    let nb = bk.len() as int;
    let na = ak.len() as int;
    let p = primary_pairs(bk, ak, nb);
    let f = fallback_pairs(bk, ak, fm, nb);
    let u = unpaired_before(bk, ak, nb);
    let v = unpaired_after(bk, ak, na);
    let s = spec_match_items(bk, ak, fm);
    let e = MatchedIndex { before: Some(i as usize), after: Some(j as usize), method: Some(m) };
    lemma_primary_pairs_entries(bk, ak, nb);
    lemma_fallback_pairs_entries(bk, ak, fm, nb);
    lemma_unpaired_entries(bk, ak, nb, na);
    if pair_listed(s, i, j, m) {
        let t = choose|t: int| 0 <= t < s.len() && #[trigger] s[t] == e;
        if t < p.len() {
            assert(s[t] == p[t]);
            let j2 = p[t].after->0 as int;
            lemma_last_primary(ak, bk[i].primary, na);
            assert(primary_partner(bk, ak, i) == Some(j2));
        } else if t < p.len() + f.len() {
            assert(s[t] == f[t - p.len()]);
            let j2 = f[t - p.len()].after->0 as int;
            assert(fallback_partner(bk, ak, i) == Some(j2));
            lemma_last_fallback(ak, after_primary_flags(bk, ak), bk[i].fallback->0, na);
        } else if t < p.len() + f.len() + u.len() {
            assert(s[t] == u[t - p.len() - f.len()]);
        } else {
            assert(s[t] == v[t - p.len() - f.len() - u.len()]);
        }
    }
    if m == MatchMethod::ObjectId && primary_partner(bk, ak, i) == Some(j) {
        lemma_primary_pairs_counts(bk, ak, nb, i, 0);
        let t = choose_entry(p, i);
        assert(p[t] == e);
        assert(s[t] == p[t]);
    } else if m == fm && fallback_partner(bk, ak, i) == Some(j) {
        lemma_fallback_pairs_counts(bk, ak, fm, nb, i, 0);
        let t = choose_entry(f, i);
        assert(f[t] == e);
        assert(s[p.len() + t] == f[t]);
    }
}

/// With distinct identifiers, the earlier and the later object `i` and `j`
/// are primary partners exactly when they have the same identifier.
proof fn lemma_primary_partner_distinct(bk: Seq<SpecMatchKey>, ak: Seq<SpecMatchKey>, i: int, j: int)
    requires
        distinct_identifiers(bk),
        distinct_identifiers(ak),
        0 <= i < bk.len(),
        0 <= j < ak.len(),
    ensures
        primary_partner(bk, ak, i) == Some(j) <==> bk[i].primary == ak[j].primary,
        primary_partner(bk, ak, i) is Some <==> exists|y: int|
            0 <= y < ak.len() && ak[y].primary == bk[i].primary,
{
    let k = bk[i].primary;
    lemma_first_primary(bk, k, bk.len() as int);
    lemma_last_primary(ak, k, ak.len() as int);
    assert(first_primary(bk, k, bk.len() as int) == Some(i));
    if ak[j].primary == k {
        assert(last_primary(ak, k, ak.len() as int) == Some(j));
    }
}

/// With distinct identifiers, the objects that the pairing pairs by primary
/// key are the same whichever revision comes first.
proof fn lemma_primary_flags_swap(bk: Seq<SpecMatchKey>, ak: Seq<SpecMatchKey>)
    requires
        distinct_identifiers(bk),
        distinct_identifiers(ak),
    ensures
        before_primary_flags(bk, ak) == after_primary_flags(ak, bk),
        after_primary_flags(bk, ak) == before_primary_flags(ak, bk),
{
    assert forall|i: int| 0 <= i < bk.len() implies before_primary_used(bk, ak, i)
        == after_primary_used(ak, bk, i, ak.len() as int) by {
        let k = bk[i].primary;
        lemma_first_primary(bk, k, bk.len() as int);
        lemma_last_primary(bk, k, bk.len() as int);
        lemma_first_primary(ak, k, ak.len() as int);
        lemma_last_primary(ak, k, ak.len() as int);
        assert(first_primary(bk, k, bk.len() as int) == Some(i));
        assert(last_primary(bk, k, bk.len() as int) == Some(i));
    }
    assert forall|j: int| 0 <= j < ak.len() implies after_primary_used(
        bk,
        ak,
        j,
        bk.len() as int,
    ) == before_primary_used(ak, bk, j) by {
        let k = ak[j].primary;
        lemma_first_primary(ak, k, ak.len() as int);
        lemma_last_primary(ak, k, ak.len() as int);
        lemma_first_primary(bk, k, bk.len() as int);
        lemma_last_primary(bk, k, bk.len() as int);
        assert(first_primary(ak, k, ak.len() as int) == Some(j));
        assert(last_primary(ak, k, ak.len() as int) == Some(j));
    }
    assert(before_primary_flags(bk, ak) =~= after_primary_flags(ak, bk));
    assert(after_primary_flags(bk, ak) =~= before_primary_flags(ak, bk));
}

/// With distinct identifiers, `i` and `j` are fallback partners whichever
/// revision comes first.
proof fn lemma_fallback_partner_swap(bk: Seq<SpecMatchKey>, ak: Seq<SpecMatchKey>, i: int, j: int)
    requires
        distinct_identifiers(bk),
        distinct_identifiers(ak),
        0 <= i < bk.len(),
        0 <= j < ak.len(),
    ensures
        fallback_partner(bk, ak, i) == Some(j) <==> fallback_partner(ak, bk, j) == Some(i),
{
    lemma_primary_flags_swap(bk, ak);
    let bflags = before_primary_flags(bk, ak);
    let aflags = after_primary_flags(bk, ak);
    assert(before_primary_used(bk, ak, i) == bflags[i]);
    assert(before_primary_used(ak, bk, j) == before_primary_flags(ak, bk)[j]);
    if fallback_partner(bk, ak, i) == Some(j) {
        let k = bk[i].fallback->0;
        lemma_last_fallback(ak, aflags, k, ak.len() as int);
        assert(fallback_hit(bk, bflags, k, i));
        assert(fallback_unique(ak, bk, k));
        lemma_single_hit_is_last(bk, bflags, k, bk.len() as int, i);
    }
    if fallback_partner(ak, bk, j) == Some(i) {
        let k = ak[j].fallback->0;
        lemma_last_fallback(bk, bflags, k, bk.len() as int);
        assert(fallback_hit(ak, aflags, k, j));
        assert(fallback_unique(bk, ak, k));
        lemma_single_hit_is_last(ak, aflags, k, ak.len() as int, j);
    }
}

/// Swapping the two revisions swaps the pairs: where no two objects of
/// either revision share an identifier, the earlier object `i` is paired with
/// the later object `j` by a method exactly when, with the revisions
/// swapped, `j` is paired with `i` by the same method.
pub proof fn lemma_match_items_swap(bk: Seq<SpecMatchKey>, ak: Seq<SpecMatchKey>, fm: MatchMethod)
    requires
        bk.len() <= usize::MAX,
        ak.len() <= usize::MAX,
        distinct_identifiers(bk),
        distinct_identifiers(ak),
    ensures
        forall|i: int, j: int, m: MatchMethod|
            0 <= i < bk.len() && 0 <= j < ak.len() ==> (pair_listed(
                #[trigger] spec_match_items(bk, ak, fm),
                i,
                j,
                m,
            ) <==> pair_listed(spec_match_items(ak, bk, fm), j, i, m)),
{
    assert forall|i: int, j: int, m: MatchMethod| 0 <= i < bk.len() && 0 <= j < ak.len() implies (
    pair_listed(#[trigger] spec_match_items(bk, ak, fm), i, j, m) <==> pair_listed(
        spec_match_items(ak, bk, fm),
        j,
        i,
        m,
    )) by {
        lemma_pair_membership(bk, ak, fm, i, j, m);
        lemma_pair_membership(ak, bk, fm, j, i, m);
        lemma_primary_partner_distinct(bk, ak, i, j);
        lemma_primary_partner_distinct(ak, bk, j, i);
        lemma_fallback_partner_swap(bk, ak, i, j);
    }
}


// ---------------------------------------------------------------------------
// Counting over a pairing.

/// How many of the first `n` entries of `ms` satisfy `pred`.
pub open spec fn count_entries(
    ms: Seq<MatchedIndex>,
    n: int,
    pred: spec_fn(MatchedIndex) -> bool,
) -> nat
    decreases n,
{
    if n <= 0 {
        0
    } else {
        count_entries(ms, n - 1, pred) + if pred(ms[n - 1]) {
            1nat
        } else {
            0nat
        }
    }
}

/// How many indices below `n` satisfy `pred`.
pub open spec fn count_indices(n: int, pred: spec_fn(int) -> bool) -> nat
    decreases n,
{
    if n <= 0 {
        0
    } else {
        count_indices(n - 1, pred) + if pred(n - 1) {
            1nat
        } else {
            0nat
        }
    }
}

proof fn lemma_count_entries_prefix(
    x: Seq<MatchedIndex>,
    y: Seq<MatchedIndex>,
    n: int,
    pred: spec_fn(MatchedIndex) -> bool,
)
    requires
        0 <= n <= x.len(),
        n <= y.len(),
        forall|i: int| 0 <= i < n ==> x[i] == y[i],
    ensures
        count_entries(x, n, pred) == count_entries(y, n, pred),
    decreases n,
{
    if n > 0 {
        lemma_count_entries_prefix(x, y, n - 1, pred);
    }
}

proof fn lemma_count_entries_concat(
    x: Seq<MatchedIndex>,
    y: Seq<MatchedIndex>,
    m: int,
    pred: spec_fn(MatchedIndex) -> bool,
)
    requires
        0 <= m <= y.len(),
    ensures
        count_entries(x + y, x.len() + m, pred) == count_entries(x, x.len() as int, pred)
            + count_entries(y, m, pred),
    decreases m,
{
    if m > 0 {
        lemma_count_entries_concat(x, y, m - 1, pred);
        assert((x + y)[x.len() + m - 1] == y[m - 1]);
    } else {
        lemma_count_entries_prefix(x + y, x, x.len() as int, pred);
    }
}

proof fn lemma_count_entries_single(e: MatchedIndex, pred: spec_fn(MatchedIndex) -> bool)
    ensures
        count_entries(seq![e], 1, pred) == if pred(e) {
            1nat
        } else {
            0nat
        },
{
    reveal_with_fuel(count_entries, 2);
    assert(seq![e][0] == e);
}

proof fn lemma_count_indices_equiv(n: int, p: spec_fn(int) -> bool, q: spec_fn(int) -> bool)
    requires
        forall|i: int| 0 <= i < n ==> #[trigger] p(i) == q(i),
    ensures
        count_indices(n, p) == count_indices(n, q),
    decreases n,
{
    if n > 0 {
        lemma_count_indices_equiv(n - 1, p, q);
    }
}

/// The indices below `n` that satisfy `pred`.
pub open spec fn index_set(n: int, pred: spec_fn(int) -> bool) -> Set<int> {
    Set::new(|i: int| 0 <= i < n && pred(i))
}

proof fn lemma_count_indices_set(n: int, pred: spec_fn(int) -> bool)
    requires
        0 <= n,
    ensures
        index_set(n, pred).finite(),
        index_set(n, pred).len() == count_indices(n, pred),
    decreases n,
{
    if n == 0 {
        assert(index_set(n, pred) =~= Set::<int>::empty());
    } else {
        lemma_count_indices_set(n - 1, pred);
        if pred(n - 1) {
            assert(index_set(n, pred) =~= index_set(n - 1, pred).insert(n - 1));
        } else {
            assert(index_set(n, pred) =~= index_set(n - 1, pred));
        }
    }
}

/// The entry that pairs the earlier object `i` with its primary partner.
pub open spec fn primary_entry(bk: Seq<SpecMatchKey>, ak: Seq<SpecMatchKey>, i: int) -> MatchedIndex {
    MatchedIndex {
        before: Some(i as usize),
        after: Some(primary_partner(bk, ak, i)->0 as usize),
        method: Some(MatchMethod::ObjectId),
    }
}

/// The entry that pairs the earlier object `i` with its fallback partner.
pub open spec fn fallback_entry(
    bk: Seq<SpecMatchKey>,
    ak: Seq<SpecMatchKey>,
    fm: MatchMethod,
    i: int,
) -> MatchedIndex {
    MatchedIndex {
        before: Some(i as usize),
        after: Some(fallback_partner(bk, ak, i)->0 as usize),
        method: Some(fm),
    }
}

proof fn lemma_count_primary_pairs(
    bk: Seq<SpecMatchKey>,
    ak: Seq<SpecMatchKey>,
    n: int,
    pred: spec_fn(MatchedIndex) -> bool,
)
    requires
        0 <= n,
    ensures
        count_entries(primary_pairs(bk, ak, n), primary_pairs(bk, ak, n).len() as int, pred)
            == count_indices(
            n,
            |i: int| primary_partner(bk, ak, i) is Some && pred(primary_entry(bk, ak, i)),
        ),
    decreases n,
{
    if n > 0 {
        lemma_count_primary_pairs(bk, ak, n - 1, pred);
        let prev = primary_pairs(bk, ak, n - 1);
        if primary_partner(bk, ak, n - 1) is Some {
            let e = primary_entry(bk, ak, n - 1);
            assert(primary_pairs(bk, ak, n) == prev + seq![e]);
            lemma_count_entries_concat(prev, seq![e], 1, pred);
            lemma_count_entries_single(e, pred);
        } else {
            assert(primary_pairs(bk, ak, n) =~= prev);
        }
    }
}

proof fn lemma_count_fallback_pairs(
    bk: Seq<SpecMatchKey>,
    ak: Seq<SpecMatchKey>,
    fm: MatchMethod,
    n: int,
    pred: spec_fn(MatchedIndex) -> bool,
)
    requires
        0 <= n,
    ensures
        count_entries(
            fallback_pairs(bk, ak, fm, n),
            fallback_pairs(bk, ak, fm, n).len() as int,
            pred,
        ) == count_indices(
            n,
            |i: int| fallback_partner(bk, ak, i) is Some && pred(fallback_entry(bk, ak, fm, i)),
        ),
    decreases n,
{
    if n > 0 {
        lemma_count_fallback_pairs(bk, ak, fm, n - 1, pred);
        let prev = fallback_pairs(bk, ak, fm, n - 1);
        if fallback_partner(bk, ak, n - 1) is Some {
            let e = fallback_entry(bk, ak, fm, n - 1);
            assert(fallback_pairs(bk, ak, fm, n) == prev + seq![e]);
            lemma_count_entries_concat(prev, seq![e], 1, pred);
            lemma_count_entries_single(e, pred);
        } else {
            assert(fallback_pairs(bk, ak, fm, n) =~= prev);
        }
    }
}

proof fn lemma_count_unpaired(
    bk: Seq<SpecMatchKey>,
    ak: Seq<SpecMatchKey>,
    n: int,
    m: int,
    pred: spec_fn(MatchedIndex) -> bool,
)
    requires
        0 <= n,
        0 <= m,
    ensures
        count_entries(unpaired_before(bk, ak, n), unpaired_before(bk, ak, n).len() as int, pred)
            == count_indices(
            n,
            |i: int|
                !before_paired(bk, ak, i) && pred(
                    MatchedIndex { before: Some(i as usize), after: None, method: None },
                ),
        ),
        count_entries(unpaired_after(bk, ak, m), unpaired_after(bk, ak, m).len() as int, pred)
            == count_indices(
            m,
            |j: int|
                !after_paired(bk, ak, j) && pred(
                    MatchedIndex { before: None, after: Some(j as usize), method: None },
                ),
        ),
    decreases n + m,
{
    if n > 0 {
        lemma_count_unpaired(bk, ak, n - 1, m, pred);
        let prev = unpaired_before(bk, ak, n - 1);
        if !before_paired(bk, ak, n - 1) {
            let e = MatchedIndex { before: Some((n - 1) as usize), after: None, method: None };
            lemma_count_entries_concat(prev, seq![e], 1, pred);
            lemma_count_entries_single(e, pred);
        } else {
            assert(unpaired_before(bk, ak, n) =~= prev);
        }
    }
    if m > 0 {
        lemma_count_unpaired(bk, ak, n, m - 1, pred);
        let prev = unpaired_after(bk, ak, m - 1);
        if !after_paired(bk, ak, m - 1) {
            let e = MatchedIndex { before: None, after: Some((m - 1) as usize), method: None };
            lemma_count_entries_concat(prev, seq![e], 1, pred);
            lemma_count_entries_single(e, pred);
        } else {
            assert(unpaired_after(bk, ak, m) =~= prev);
        }
    }
}


/// The kind of the report on an entry of a pairing of `b` and `a`.
pub open spec fn entry_kind<T: Comparable>(b: Seq<T::V>, a: Seq<T::V>, e: MatchedIndex) -> ChangeKind {
    entry_reports::<T>(b, a, e)[0].kind
}

/// Each pair, each earlier and each later object of a kind gives exactly one
/// report: a report on a pair is unchanged or modified, on an earlier object
/// removed, on a later one added.
pub open spec fn one_report_each<T: Comparable>() -> bool {
    &&& forall|x: T::V, y: T::V, m: MatchMethod|
        (#[trigger] T::spec_pair_reports(x, y, m)).len() == 1 && (T::spec_pair_reports(
            x,
            y,
            m,
        )[0].kind == ChangeKind::Unchanged || T::spec_pair_reports(x, y, m)[0].kind
            == ChangeKind::Modified)
    &&& forall|x: T::V|
        (#[trigger] T::spec_removed_reports(x)).len() == 1 && T::spec_removed_reports(x)[0].kind
            == ChangeKind::Removed
    &&& forall|x: T::V|
        (#[trigger] T::spec_added_reports(x)).len() == 1 && T::spec_added_reports(x)[0].kind
            == ChangeKind::Added
}

proof fn lemma_kind_count_entries<T: Comparable>(
    b: Seq<T::V>,
    a: Seq<T::V>,
    ms: Seq<MatchedIndex>,
    n: int,
    kind: ChangeKind,
)
    requires
        0 <= n <= ms.len(),
        one_report_each::<T>(),
        forall|t: int|
            0 <= t < ms.len() ==> entry_in_range(b.len() as int, a.len() as int, #[trigger] ms[t]),
    ensures
        entries_reports::<T>(b, a, ms, n).len() == n,
        super::types::kind_count(entries_reports::<T>(b, a, ms, n), kind, n) == count_entries(
            ms,
            n,
            |e: MatchedIndex| entry_kind::<T>(b, a, e) == kind,
        ),
    decreases n,
{
    if n > 0 {
        lemma_kind_count_entries::<T>(b, a, ms, n - 1, kind);
        let prev = entries_reports::<T>(b, a, ms, n - 1);
        let r = entry_reports::<T>(b, a, ms[n - 1]);
        assert(entry_in_range(b.len() as int, a.len() as int, ms[n - 1]));
        assert(r.len() == 1);
        super::types::lemma_kind_count_concat(prev, r, kind, 1);
        assert(super::types::kind_count(r, kind, 1) == if r[0].kind == kind {
            1nat
        } else {
            0nat
        }) by {
            reveal_with_fuel(super::types::kind_count, 2);
        }
    }
}

/// How many reports of a kind the reports on two revisions of objects of one
/// kind hold, counted over the pairs by primary key, the pairs by fallback
/// key, the unpaired earlier and the unpaired later objects.
proof fn lemma_change_counts<T: Comparable>(
    b: Seq<T::V>,
    a: Seq<T::V>,
    fm: MatchMethod,
    kind: ChangeKind,
)
    requires
        b.len() <= usize::MAX,
        a.len() <= usize::MAX,
        one_report_each::<T>(),
    ensures
        object_changes::<T>(b, a, fm).len() == spec_match_items(
            object_keys::<T>(b),
            object_keys::<T>(a),
            fm,
        ).len(),
        super::types::kind_count(
            object_changes::<T>(b, a, fm),
            kind,
            object_changes::<T>(b, a, fm).len() as int,
        ) == count_indices(
            b.len() as int,
            |i: int|
                primary_partner(object_keys::<T>(b), object_keys::<T>(a), i) is Some
                    && entry_kind::<T>(
                    b,
                    a,
                    primary_entry(object_keys::<T>(b), object_keys::<T>(a), i),
                ) == kind,
        ) + count_indices(
            b.len() as int,
            |i: int|
                fallback_partner(object_keys::<T>(b), object_keys::<T>(a), i) is Some
                    && entry_kind::<T>(
                    b,
                    a,
                    fallback_entry(object_keys::<T>(b), object_keys::<T>(a), fm, i),
                ) == kind,
        ) + count_indices(
            b.len() as int,
            |i: int|
                !before_paired(object_keys::<T>(b), object_keys::<T>(a), i) && entry_kind::<T>(
                    b,
                    a,
                    MatchedIndex { before: Some(i as usize), after: None, method: None },
                ) == kind,
        ) + count_indices(
            a.len() as int,
            |j: int|
                !after_paired(object_keys::<T>(b), object_keys::<T>(a), j) && entry_kind::<T>(
                    b,
                    a,
                    MatchedIndex { before: None, after: Some(j as usize), method: None },
                ) == kind,
        ),
{
    let bk = object_keys::<T>(b);
    let ak = object_keys::<T>(a);
    let nb = b.len() as int;
    let na = a.len() as int;
    let ms = spec_match_items(bk, ak, fm);
    let pred = |e: MatchedIndex| entry_kind::<T>(b, a, e) == kind;
    lemma_match_items_in_range(bk, ak, fm);
    lemma_kind_count_entries::<T>(b, a, ms, ms.len() as int, kind);
    let p = primary_pairs(bk, ak, nb);
    let f = fallback_pairs(bk, ak, fm, nb);
    let u = unpaired_before(bk, ak, nb);
    let v = unpaired_after(bk, ak, na);
    lemma_count_entries_concat(p, f, f.len() as int, pred);
    lemma_count_entries_concat(p + f, u, u.len() as int, pred);
    lemma_count_entries_concat(p + f + u, v, v.len() as int, pred);
    lemma_count_primary_pairs(bk, ak, nb, pred);
    lemma_count_fallback_pairs(bk, ak, fm, nb, pred);
    lemma_count_unpaired(bk, ak, nb, na, pred);
    lemma_count_indices_equiv(
        nb,
        |i: int| primary_partner(bk, ak, i) is Some && pred(primary_entry(bk, ak, i)),
        |i: int|
            primary_partner(bk, ak, i) is Some && entry_kind::<T>(b, a, primary_entry(bk, ak, i))
                == kind,
    );
    lemma_count_indices_equiv(
        nb,
        |i: int| fallback_partner(bk, ak, i) is Some && pred(fallback_entry(bk, ak, fm, i)),
        |i: int|
            fallback_partner(bk, ak, i) is Some && entry_kind::<T>(
                b,
                a,
                fallback_entry(bk, ak, fm, i),
            ) == kind,
    );
    lemma_count_indices_equiv(
        nb,
        |i: int|
            !before_paired(bk, ak, i) && pred(
                MatchedIndex { before: Some(i as usize), after: None, method: None },
            ),
        |i: int|
            !before_paired(bk, ak, i) && entry_kind::<T>(
                b,
                a,
                MatchedIndex { before: Some(i as usize), after: None, method: None },
            ) == kind,
    );
    lemma_count_indices_equiv(
        na,
        |j: int|
            !after_paired(bk, ak, j) && pred(
                MatchedIndex { before: None, after: Some(j as usize), method: None },
            ),
        |j: int|
            !after_paired(bk, ak, j) && entry_kind::<T>(
                b,
                a,
                MatchedIndex { before: None, after: Some(j as usize), method: None },
            ) == kind,
    );
}


/// With distinct identifiers, an earlier object is paired exactly when, the
/// revisions swapped, it is paired as a later object.
proof fn lemma_paired_swap(bk: Seq<SpecMatchKey>, ak: Seq<SpecMatchKey>, i: int)
    requires
        distinct_identifiers(bk),
        distinct_identifiers(ak),
        0 <= i < bk.len(),
    ensures
        before_paired(bk, ak, i) == after_paired(ak, bk, i),
{
    lemma_primary_flags_swap(bk, ak);
    assert(after_primary_used(ak, bk, i, ak.len() as int) == after_primary_flags(ak, bk)[i]);
    assert(before_primary_used(bk, ak, i) == before_primary_flags(bk, ak)[i]);
    lemma_after_fallback_used(ak, bk, i);
    if fallback_partner(bk, ak, i) is Some {
        let y = fallback_partner(bk, ak, i)->0;
        lemma_last_fallback(ak, after_primary_flags(bk, ak), bk[i].fallback->0, ak.len() as int);
        lemma_fallback_partner_swap(bk, ak, i, y);
        assert(fallback_partner(ak, bk, y) == Some(i));
    }
    if after_fallback_used(ak, bk, i) {
        let y = choose|y: int| 0 <= y < ak.len() && fallback_partner(ak, bk, y) == Some(i);
        lemma_fallback_partner_swap(bk, ak, i, y);
    }
}

/// With distinct identifiers, counting the primary pairs that satisfy `q`
/// gives the same number whichever revision comes first.
proof fn lemma_primary_pairs_swap_count(
    bk: Seq<SpecMatchKey>,
    ak: Seq<SpecMatchKey>,
    q: spec_fn(int, int) -> bool,
)
    requires
        distinct_identifiers(bk),
        distinct_identifiers(ak),
    ensures
        count_indices(
            bk.len() as int,
            |i: int| primary_partner(bk, ak, i) is Some && q(i, primary_partner(bk, ak, i)->0),
        ) == count_indices(
            ak.len() as int,
            |j: int| primary_partner(ak, bk, j) is Some && q(primary_partner(ak, bk, j)->0, j),
        ),
{
    let px = |i: int| primary_partner(bk, ak, i) is Some && q(i, primary_partner(bk, ak, i)->0);
    let py = |j: int| primary_partner(ak, bk, j) is Some && q(primary_partner(ak, bk, j)->0, j);
    let x = index_set(bk.len() as int, px);
    let y = index_set(ak.len() as int, py);
    let f = |i: int| primary_partner(bk, ak, i)->0;
    lemma_count_indices_set(bk.len() as int, px);
    lemma_count_indices_set(ak.len() as int, py);
    assert forall|i1: int, i2: int| x.contains(i1) && x.contains(i2) && #[trigger] f(i1) == #[trigger] f(
        i2,
    ) implies i1 == i2 by {
        let j = f(i1);
        lemma_last_primary(ak, bk[i1].primary, ak.len() as int);
        lemma_primary_partner_distinct(bk, ak, i1, j);
        lemma_primary_partner_distinct(bk, ak, i2, j);
    }
    assert forall|j: int| y.contains(j) implies x.map(f).contains(j) by {
        let i = primary_partner(ak, bk, j)->0;
        lemma_last_primary(bk, ak[j].primary, bk.len() as int);
        lemma_primary_partner_distinct(ak, bk, j, i);
        lemma_primary_partner_distinct(bk, ak, i, j);
        assert(x.contains(i) && f(i) == j);
    }
    assert forall|j: int| x.map(f).contains(j) implies y.contains(j) by {
        let i = choose|i: int| x.contains(i) && f(i) == j;
        lemma_last_primary(ak, bk[i].primary, ak.len() as int);
        lemma_primary_partner_distinct(bk, ak, i, j);
        lemma_primary_partner_distinct(ak, bk, j, i);
    }
    assert(x.map(f) =~= y);
    vstd::set_lib::lemma_map_size(x, y, f);
}

/// With distinct identifiers, counting the fallback pairs that satisfy `q`
/// gives the same number whichever revision comes first.
proof fn lemma_fallback_pairs_swap_count(
    bk: Seq<SpecMatchKey>,
    ak: Seq<SpecMatchKey>,
    q: spec_fn(int, int) -> bool,
)
    requires
        distinct_identifiers(bk),
        distinct_identifiers(ak),
    ensures
        count_indices(
            bk.len() as int,
            |i: int| fallback_partner(bk, ak, i) is Some && q(i, fallback_partner(bk, ak, i)->0),
        ) == count_indices(
            ak.len() as int,
            |j: int| fallback_partner(ak, bk, j) is Some && q(fallback_partner(ak, bk, j)->0, j),
        ),
{
    let px = |i: int| fallback_partner(bk, ak, i) is Some && q(i, fallback_partner(bk, ak, i)->0);
    let py = |j: int| fallback_partner(ak, bk, j) is Some && q(fallback_partner(ak, bk, j)->0, j);
    let x = index_set(bk.len() as int, px);
    let y = index_set(ak.len() as int, py);
    let f = |i: int| fallback_partner(bk, ak, i)->0;
    lemma_count_indices_set(bk.len() as int, px);
    lemma_count_indices_set(ak.len() as int, py);
    assert forall|i1: int, i2: int| x.contains(i1) && x.contains(i2) && #[trigger] f(i1) == #[trigger] f(
        i2,
    ) implies i1 == i2 by {
        let j = f(i1);
        lemma_last_fallback(ak, after_primary_flags(bk, ak), bk[i1].fallback->0, ak.len() as int);
        lemma_fallback_partner_swap(bk, ak, i1, j);
        lemma_fallback_partner_swap(bk, ak, i2, j);
    }
    assert forall|j: int| y.contains(j) implies x.map(f).contains(j) by {
        let i = fallback_partner(ak, bk, j)->0;
        lemma_last_fallback(bk, after_primary_flags(ak, bk), ak[j].fallback->0, bk.len() as int);
        lemma_fallback_partner_swap(bk, ak, i, j);
        assert(x.contains(i) && f(i) == j);
    }
    assert forall|j: int| x.map(f).contains(j) implies y.contains(j) by {
        let i = choose|i: int| x.contains(i) && f(i) == j;
        lemma_last_fallback(ak, after_primary_flags(bk, ak), bk[i].fallback->0, ak.len() as int);
        lemma_fallback_partner_swap(bk, ak, i, j);
    }
    assert(x.map(f) =~= y);
    vstd::set_lib::lemma_map_size(x, y, f);
}


/// The kind of the report on the earlier object `i` of `b` paired with the
/// later object `j` of `a`.
pub open spec fn pair_kind_at<T: Comparable>(b: Seq<T::V>, a: Seq<T::V>, i: int, j: int) -> ChangeKind {
    T::spec_pair_reports(b[i], a[j], MatchMethod::ObjectId)[0].kind
}

/// Whether a report on a pair is modified or unchanged depends neither on
/// the method nor on which object comes first.
pub open spec fn pair_kind_symmetric<T: Comparable>() -> bool {
    forall|x: T::V, y: T::V, m: MatchMethod|
        (#[trigger] T::spec_pair_reports(x, y, m))[0].kind == T::spec_pair_reports(
            y,
            x,
            MatchMethod::ObjectId,
        )[0].kind
}

proof fn lemma_count_indices_none(n: int, p: spec_fn(int) -> bool)
    requires
        forall|i: int| 0 <= i < n ==> !#[trigger] p(i),
    ensures
        count_indices(n, p) == 0,
    decreases n,
{
    if n > 0 {
        lemma_count_indices_none(n - 1, p);
    }
}

proof fn lemma_change_counts_forms<T: Comparable>(
    b: Seq<T::V>,
    a: Seq<T::V>,
    fm: MatchMethod,
    kind: ChangeKind,
)
    requires
        b.len() <= usize::MAX,
        a.len() <= usize::MAX,
        one_report_each::<T>(),
        pair_kind_symmetric::<T>(),
    ensures
        super::types::kind_count(
            object_changes::<T>(b, a, fm),
            kind,
            object_changes::<T>(b, a, fm).len() as int,
        ) == count_indices(
            b.len() as int,
            |i: int|
                primary_partner(object_keys::<T>(b), object_keys::<T>(a), i) is Some
                    && pair_kind_at::<T>(
                    b,
                    a,
                    i,
                    primary_partner(object_keys::<T>(b), object_keys::<T>(a), i)->0,
                ) == kind,
        ) + count_indices(
            b.len() as int,
            |i: int|
                fallback_partner(object_keys::<T>(b), object_keys::<T>(a), i) is Some
                    && pair_kind_at::<T>(
                    b,
                    a,
                    i,
                    fallback_partner(object_keys::<T>(b), object_keys::<T>(a), i)->0,
                ) == kind,
        ) + (if kind == ChangeKind::Removed {
            count_indices(
                b.len() as int,
                |i: int| !before_paired(object_keys::<T>(b), object_keys::<T>(a), i),
            )
        } else {
            0
        }) + (if kind == ChangeKind::Added {
            count_indices(
                a.len() as int,
                |j: int| !after_paired(object_keys::<T>(b), object_keys::<T>(a), j),
            )
        } else {
            0
        }),
        kind == ChangeKind::Added || kind == ChangeKind::Removed ==> count_indices(
            b.len() as int,
            |i: int|
                primary_partner(object_keys::<T>(b), object_keys::<T>(a), i) is Some
                    && pair_kind_at::<T>(
                    b,
                    a,
                    i,
                    primary_partner(object_keys::<T>(b), object_keys::<T>(a), i)->0,
                ) == kind,
        ) == 0 && count_indices(
            b.len() as int,
            |i: int|
                fallback_partner(object_keys::<T>(b), object_keys::<T>(a), i) is Some
                    && pair_kind_at::<T>(
                    b,
                    a,
                    i,
                    fallback_partner(object_keys::<T>(b), object_keys::<T>(a), i)->0,
                ) == kind,
        ) == 0,
{
    let bk = object_keys::<T>(b);
    let ak = object_keys::<T>(a);
    let nb = b.len() as int;
    let na = a.len() as int;
    lemma_change_counts::<T>(b, a, fm, kind);
    assert forall|i: int| 0 <= i < nb implies (primary_partner(bk, ak, i) is Some
        && #[trigger] entry_kind::<T>(b, a, primary_entry(bk, ak, i)) == kind) == (
    primary_partner(bk, ak, i) is Some && pair_kind_at::<T>(
        b,
        a,
        i,
        primary_partner(bk, ak, i)->0,
    ) == kind) by {
        lemma_last_primary(ak, bk[i].primary, na);
    }
    lemma_count_indices_equiv(
        nb,
        |i: int|
            primary_partner(bk, ak, i) is Some && entry_kind::<T>(b, a, primary_entry(bk, ak, i))
                == kind,
        |i: int|
            primary_partner(bk, ak, i) is Some && pair_kind_at::<T>(
                b,
                a,
                i,
                primary_partner(bk, ak, i)->0,
            ) == kind,
    );
    assert forall|i: int| 0 <= i < nb implies (fallback_partner(bk, ak, i) is Some
        && #[trigger] entry_kind::<T>(b, a, fallback_entry(bk, ak, fm, i)) == kind) == (
    fallback_partner(bk, ak, i) is Some && pair_kind_at::<T>(
        b,
        a,
        i,
        fallback_partner(bk, ak, i)->0,
    ) == kind) by {
        if fallback_partner(bk, ak, i) is Some {
            let j = fallback_partner(bk, ak, i)->0;
            lemma_last_fallback(ak, after_primary_flags(bk, ak), bk[i].fallback->0, na);
            assert(T::spec_pair_reports(b[i], a[j], fm)[0].kind == T::spec_pair_reports(
                a[j],
                b[i],
                MatchMethod::ObjectId,
            )[0].kind);
            assert(T::spec_pair_reports(a[j], b[i], MatchMethod::ObjectId)[0].kind
                == T::spec_pair_reports(b[i], a[j], MatchMethod::ObjectId)[0].kind);
        }
    }
    lemma_count_indices_equiv(
        nb,
        |i: int|
            fallback_partner(bk, ak, i) is Some && entry_kind::<T>(
                b,
                a,
                fallback_entry(bk, ak, fm, i),
            ) == kind,
        |i: int|
            fallback_partner(bk, ak, i) is Some && pair_kind_at::<T>(
                b,
                a,
                i,
                fallback_partner(bk, ak, i)->0,
            ) == kind,
    );
    let removed_pred = |i: int|
        !before_paired(bk, ak, i) && entry_kind::<T>(
            b,
            a,
            MatchedIndex { before: Some(i as usize), after: None, method: None },
        ) == kind;
    let added_pred = |j: int|
        !after_paired(bk, ak, j) && entry_kind::<T>(
            b,
            a,
            MatchedIndex { before: None, after: Some(j as usize), method: None },
        ) == kind;
    assert forall|i: int| 0 <= i < nb implies #[trigger] removed_pred(i) == (!before_paired(
        bk,
        ak,
        i,
    ) && kind == ChangeKind::Removed) by {
        assert(T::spec_removed_reports(b[i])[0].kind == ChangeKind::Removed);
    }
    assert forall|j: int| 0 <= j < na implies #[trigger] added_pred(j) == (!after_paired(
        bk,
        ak,
        j,
    ) && kind == ChangeKind::Added) by {
        assert(T::spec_added_reports(a[j])[0].kind == ChangeKind::Added);
    }
    if kind == ChangeKind::Removed {
        lemma_count_indices_equiv(nb, removed_pred, |i: int| !before_paired(bk, ak, i));
    } else {
        lemma_count_indices_none(nb, removed_pred);
    }
    if kind == ChangeKind::Added {
        lemma_count_indices_equiv(na, added_pred, |j: int| !after_paired(bk, ak, j));
    } else {
        lemma_count_indices_none(na, added_pred);
    }
    if kind == ChangeKind::Added || kind == ChangeKind::Removed {
        let pp_pred = |i: int|
            primary_partner(bk, ak, i) is Some && pair_kind_at::<T>(
                b,
                a,
                i,
                primary_partner(bk, ak, i)->0,
            ) == kind;
        let fp_pred = |i: int|
            fallback_partner(bk, ak, i) is Some && pair_kind_at::<T>(
                b,
                a,
                i,
                fallback_partner(bk, ak, i)->0,
            ) == kind;
        assert forall|i: int| 0 <= i < nb implies !#[trigger] pp_pred(i) by {
            if primary_partner(bk, ak, i) is Some {
                let j = primary_partner(bk, ak, i)->0;
                assert(T::spec_pair_reports(b[i], a[j], MatchMethod::ObjectId).len() == 1);
            }
        }
        lemma_count_indices_none(nb, pp_pred);
        assert forall|i: int| 0 <= i < nb implies !#[trigger] fp_pred(i) by {
            if fallback_partner(bk, ak, i) is Some {
                let j = fallback_partner(bk, ak, i)->0;
                assert(T::spec_pair_reports(b[i], a[j], MatchMethod::ObjectId).len() == 1);
            }
        }
        lemma_count_indices_none(nb, fp_pred);
    }
}


/// Swapping the two revisions of objects of one kind swaps the numbers of
/// added and removed reports and keeps the numbers of modified and unchanged
/// ones, where no two objects of either revision share an identifier.
proof fn lemma_object_changes_swap<T: Comparable>(b: Seq<T::V>, a: Seq<T::V>, fm: MatchMethod)
    requires
        b.len() <= usize::MAX,
        a.len() <= usize::MAX,
        distinct_identifiers(object_keys::<T>(b)),
        distinct_identifiers(object_keys::<T>(a)),
        one_report_each::<T>(),
        pair_kind_symmetric::<T>(),
    ensures
        super::types::kind_count(
            object_changes::<T>(a, b, fm),
            ChangeKind::Added,
            object_changes::<T>(a, b, fm).len() as int,
        ) == super::types::kind_count(
            object_changes::<T>(b, a, fm),
            ChangeKind::Removed,
            object_changes::<T>(b, a, fm).len() as int,
        ),
        super::types::kind_count(
            object_changes::<T>(a, b, fm),
            ChangeKind::Removed,
            object_changes::<T>(a, b, fm).len() as int,
        ) == super::types::kind_count(
            object_changes::<T>(b, a, fm),
            ChangeKind::Added,
            object_changes::<T>(b, a, fm).len() as int,
        ),
        super::types::kind_count(
            object_changes::<T>(a, b, fm),
            ChangeKind::Modified,
            object_changes::<T>(a, b, fm).len() as int,
        ) == super::types::kind_count(
            object_changes::<T>(b, a, fm),
            ChangeKind::Modified,
            object_changes::<T>(b, a, fm).len() as int,
        ),
        super::types::kind_count(
            object_changes::<T>(a, b, fm),
            ChangeKind::Unchanged,
            object_changes::<T>(a, b, fm).len() as int,
        ) == super::types::kind_count(
            object_changes::<T>(b, a, fm),
            ChangeKind::Unchanged,
            object_changes::<T>(b, a, fm).len() as int,
        ),
{
    let bk = object_keys::<T>(b);
    let ak = object_keys::<T>(a);
    let nb = b.len() as int;
    let na = a.len() as int;
    // Unpaired objects: removed on one side are added on the other.
    assert forall|i: int| 0 <= i < nb implies #[trigger] before_paired(bk, ak, i) == after_paired(
        ak,
        bk,
        i,
    ) by {
        lemma_paired_swap(bk, ak, i);
    }
    assert forall|j: int| 0 <= j < na implies #[trigger] before_paired(ak, bk, j) == after_paired(
        bk,
        ak,
        j,
    ) by {
        lemma_paired_swap(ak, bk, j);
    }
    lemma_count_indices_equiv(
        nb,
        |i: int| !before_paired(bk, ak, i),
        |i: int| !after_paired(ak, bk, i),
    );
    lemma_count_indices_equiv(
        na,
        |j: int| !before_paired(ak, bk, j),
        |j: int| !after_paired(bk, ak, j),
    );
    // Pairs: the same pairs, the other way round, of the same kinds.
    lemma_pair_counts_swap::<T>(b, a, ChangeKind::Modified);
    lemma_pair_counts_swap::<T>(b, a, ChangeKind::Unchanged);
    lemma_change_counts_forms::<T>(b, a, fm, ChangeKind::Added);
    lemma_change_counts_forms::<T>(b, a, fm, ChangeKind::Removed);
    lemma_change_counts_forms::<T>(b, a, fm, ChangeKind::Modified);
    lemma_change_counts_forms::<T>(b, a, fm, ChangeKind::Unchanged);
    lemma_change_counts_forms::<T>(a, b, fm, ChangeKind::Added);
    lemma_change_counts_forms::<T>(a, b, fm, ChangeKind::Removed);
    lemma_change_counts_forms::<T>(a, b, fm, ChangeKind::Modified);
    lemma_change_counts_forms::<T>(a, b, fm, ChangeKind::Unchanged);
}


/// Counting the pairs whose report has kind `kind` gives the same numbers,
/// by primary and by fallback key, whichever revision comes first.
proof fn lemma_pair_counts_swap<T: Comparable>(b: Seq<T::V>, a: Seq<T::V>, kind: ChangeKind)
    requires
        distinct_identifiers(object_keys::<T>(b)),
        distinct_identifiers(object_keys::<T>(a)),
        pair_kind_symmetric::<T>(),
    ensures
        count_indices(
            b.len() as int,
            |i: int|
                primary_partner(object_keys::<T>(b), object_keys::<T>(a), i) is Some
                    && pair_kind_at::<T>(
                    b,
                    a,
                    i,
                    primary_partner(object_keys::<T>(b), object_keys::<T>(a), i)->0,
                ) == kind,
        ) == count_indices(
            a.len() as int,
            |j: int|
                primary_partner(object_keys::<T>(a), object_keys::<T>(b), j) is Some
                    && pair_kind_at::<T>(
                    a,
                    b,
                    j,
                    primary_partner(object_keys::<T>(a), object_keys::<T>(b), j)->0,
                ) == kind,
        ),
        count_indices(
            b.len() as int,
            |i: int|
                fallback_partner(object_keys::<T>(b), object_keys::<T>(a), i) is Some
                    && pair_kind_at::<T>(
                    b,
                    a,
                    i,
                    fallback_partner(object_keys::<T>(b), object_keys::<T>(a), i)->0,
                ) == kind,
        ) == count_indices(
            a.len() as int,
            |j: int|
                fallback_partner(object_keys::<T>(a), object_keys::<T>(b), j) is Some
                    && pair_kind_at::<T>(
                    a,
                    b,
                    j,
                    fallback_partner(object_keys::<T>(a), object_keys::<T>(b), j)->0,
                ) == kind,
        ),
{
    let bk = object_keys::<T>(b);
    let ak = object_keys::<T>(a);
    let na = a.len() as int;
    let q = |i: int, j: int| pair_kind_at::<T>(b, a, i, j) == kind;
    lemma_count_indices_equiv(
        b.len() as int,
        |i: int| primary_partner(bk, ak, i) is Some && q(i, primary_partner(bk, ak, i)->0),
        |i: int|
            primary_partner(bk, ak, i) is Some && pair_kind_at::<T>(
                b,
                a,
                i,
                primary_partner(bk, ak, i)->0,
            ) == kind,
    );
    lemma_count_indices_equiv(
        b.len() as int,
        |i: int| fallback_partner(bk, ak, i) is Some && q(i, fallback_partner(bk, ak, i)->0),
        |i: int|
            fallback_partner(bk, ak, i) is Some && pair_kind_at::<T>(
                b,
                a,
                i,
                fallback_partner(bk, ak, i)->0,
            ) == kind,
    );
    lemma_primary_pairs_swap_count(bk, ak, q);
    lemma_fallback_pairs_swap_count(bk, ak, q);
    assert forall|j: int| 0 <= j < na implies #[trigger] pair_kind_at::<T>(
        a,
        b,
        j,
        primary_partner(ak, bk, j)->0,
    ) == pair_kind_at::<T>(b, a, primary_partner(ak, bk, j)->0, j) by {
        let i = primary_partner(ak, bk, j)->0;
        assert(T::spec_pair_reports(a[j], b[i], MatchMethod::ObjectId)[0].kind
            == T::spec_pair_reports(b[i], a[j], MatchMethod::ObjectId)[0].kind);
    }
    assert forall|j: int| 0 <= j < na implies #[trigger] pair_kind_at::<T>(
        a,
        b,
        j,
        fallback_partner(ak, bk, j)->0,
    ) == pair_kind_at::<T>(b, a, fallback_partner(ak, bk, j)->0, j) by {
        let i = fallback_partner(ak, bk, j)->0;
        assert(T::spec_pair_reports(a[j], b[i], MatchMethod::ObjectId)[0].kind
            == T::spec_pair_reports(b[i], a[j], MatchMethod::ObjectId)[0].kind);
    }
    lemma_count_indices_equiv(
        na,
        |j: int| primary_partner(ak, bk, j) is Some && q(primary_partner(ak, bk, j)->0, j),
        |j: int|
            primary_partner(ak, bk, j) is Some && pair_kind_at::<T>(
                a,
                b,
                j,
                primary_partner(ak, bk, j)->0,
            ) == kind,
    );
    lemma_count_indices_equiv(
        na,
        |j: int| fallback_partner(ak, bk, j) is Some && q(fallback_partner(ak, bk, j)->0, j),
        |j: int|
            fallback_partner(ak, bk, j) is Some && pair_kind_at::<T>(
                a,
                b,
                j,
                fallback_partner(ak, bk, j)->0,
            ) == kind,
    );
}


/// Two field values are equal in either order.
proof fn lemma_same_value_symmetric()
    ensures
        forall|x: SpecFieldValue, y: SpecFieldValue| #[trigger] same_value(x, y) == same_value(y, x),
{
    assert forall|x: SpecFieldValue, y: SpecFieldValue| #[trigger] same_value(x, y) == same_value(
        y,
        x,
    ) by {
        match (x, y) {
            (SpecFieldValue::Points(p), SpecFieldValue::Points(q)) => {
                if crate::model::common::same_points(p, q) {
                    assert forall|i: int| 0 <= i < q.len() implies (#[trigger] q[i]).same(p[i]) by {
                        assert(p[i].same(q[i]));
                    }
                }
                if crate::model::common::same_points(q, p) {
                    assert forall|i: int| 0 <= i < p.len() implies (#[trigger] p[i]).same(q[i]) by {
                        assert(q[i].same(p[i]));
                    }
                }
            },
            _ => {},
        }
    }
}

/// The objects of a kind, compared in either order, are found unchanged
/// alike.
proof fn lemma_schematic_kinds()
    ensures
        one_report_each::<Symbol>(),
        pair_kind_symmetric::<Symbol>(),
        one_report_each::<Wire>(),
        pair_kind_symmetric::<Wire>(),
        one_report_each::<Junction>(),
        pair_kind_symmetric::<Junction>(),
        one_report_each::<Label>(),
        pair_kind_symmetric::<Label>(),
        one_report_each::<SchematicNet>(),
        pair_kind_symmetric::<SchematicNet>(),
{
    lemma_same_value_symmetric();
    assert forall|x: SpecSymbol, y: SpecSymbol, m: MatchMethod|
        (#[trigger] <Symbol as Comparable>::spec_pair_reports(x, y, m))[0].kind
            == <Symbol as Comparable>::spec_pair_reports(y, x, MatchMethod::ObjectId)[0].kind by {
        assert((super::schematic::symbol_fields(x, y).len() == 0) == (
        super::schematic::symbol_fields(y, x).len() == 0));
    }
    assert forall|x: SpecWire, y: SpecWire, m: MatchMethod|
        (#[trigger] <Wire as Comparable>::spec_pair_reports(x, y, m))[0].kind
            == <Wire as Comparable>::spec_pair_reports(y, x, MatchMethod::ObjectId)[0].kind by {
        assert((super::schematic::wire_fields(x, y).len() == 0) == (
        super::schematic::wire_fields(y, x).len() == 0));
    }
    assert forall|x: SpecJunction, y: SpecJunction, m: MatchMethod|
        (#[trigger] <Junction as Comparable>::spec_pair_reports(x, y, m))[0].kind
            == <Junction as Comparable>::spec_pair_reports(y, x, MatchMethod::ObjectId)[0].kind by {
        assert((super::schematic::junction_fields(x, y).len() == 0) == (
        super::schematic::junction_fields(y, x).len() == 0));
    }
    assert forall|x: SpecLabel, y: SpecLabel, m: MatchMethod|
        (#[trigger] <Label as Comparable>::spec_pair_reports(x, y, m))[0].kind
            == <Label as Comparable>::spec_pair_reports(y, x, MatchMethod::ObjectId)[0].kind by {
        assert((super::schematic::label_fields(x, y).len() == 0) == (
        super::schematic::label_fields(y, x).len() == 0));
    }
    assert forall|x: SpecSchematicNet, y: SpecSchematicNet, m: MatchMethod|
        (#[trigger] <SchematicNet as Comparable>::spec_pair_reports(x, y, m))[0].kind
            == <SchematicNet as Comparable>::spec_pair_reports(
            y,
            x,
            MatchMethod::ObjectId,
        )[0].kind by {
        assert((super::schematic::net_fields(x, y).len() == 0) == (
        super::schematic::net_fields(y, x).len() == 0));
    }
}

proof fn lemma_kind_count_five(
    c1: Seq<SpecObjectChange>,
    c2: Seq<SpecObjectChange>,
    c3: Seq<SpecObjectChange>,
    c4: Seq<SpecObjectChange>,
    c5: Seq<SpecObjectChange>,
    kind: ChangeKind,
)
    ensures
        super::types::kind_count(
            c1 + c2 + c3 + c4 + c5,
            kind,
            (c1 + c2 + c3 + c4 + c5).len() as int,
        ) == super::types::kind_count(c1, kind, c1.len() as int) + super::types::kind_count(
            c2,
            kind,
            c2.len() as int,
        ) + super::types::kind_count(c3, kind, c3.len() as int) + super::types::kind_count(
            c4,
            kind,
            c4.len() as int,
        ) + super::types::kind_count(c5, kind, c5.len() as int),
{
    super::types::lemma_kind_count_concat(c1, c2, kind, c2.len() as int);
    super::types::lemma_kind_count_concat(c1 + c2, c3, kind, c3.len() as int);
    super::types::lemma_kind_count_concat(c1 + c2 + c3, c4, kind, c4.len() as int);
    super::types::lemma_kind_count_concat(c1 + c2 + c3 + c4, c5, kind, c5.len() as int);
}

/// Swapping the two revisions of a schematic swaps the numbers of added and
/// removed objects in the summary and keeps the numbers of modified and
/// unchanged ones, where no two objects of a kind in either revision share an
/// identifier.
pub proof fn lemma_schematic_swap_summary(a: SpecSchematic, b: SpecSchematic)
    requires
        a.symbols.len() <= usize::MAX,
        a.wires.len() <= usize::MAX,
        a.junctions.len() <= usize::MAX,
        a.labels.len() <= usize::MAX,
        a.nets.len() <= usize::MAX,
        b.symbols.len() <= usize::MAX,
        b.wires.len() <= usize::MAX,
        b.junctions.len() <= usize::MAX,
        b.labels.len() <= usize::MAX,
        b.nets.len() <= usize::MAX,
        forall|x: int, y: int| 0 <= x < y < a.symbols.len() ==> a.symbols[x].id != a.symbols[y].id,
        forall|x: int, y: int| 0 <= x < y < a.wires.len() ==> a.wires[x].id != a.wires[y].id,
        forall|x: int, y: int|
            0 <= x < y < a.junctions.len() ==> a.junctions[x].id != a.junctions[y].id,
        forall|x: int, y: int| 0 <= x < y < a.labels.len() ==> a.labels[x].id != a.labels[y].id,
        forall|x: int, y: int| 0 <= x < y < a.nets.len() ==> a.nets[x].id != a.nets[y].id,
        forall|x: int, y: int| 0 <= x < y < b.symbols.len() ==> b.symbols[x].id != b.symbols[y].id,
        forall|x: int, y: int| 0 <= x < y < b.wires.len() ==> b.wires[x].id != b.wires[y].id,
        forall|x: int, y: int|
            0 <= x < y < b.junctions.len() ==> b.junctions[x].id != b.junctions[y].id,
        forall|x: int, y: int| 0 <= x < y < b.labels.len() ==> b.labels[x].id != b.labels[y].id,
        forall|x: int, y: int| 0 <= x < y < b.nets.len() ==> b.nets[x].id != b.nets[y].id,
    ensures
        super::types::summary_of(schematic_changes(b, a)).added == super::types::summary_of(
            schematic_changes(a, b),
        ).removed,
        super::types::summary_of(schematic_changes(b, a)).removed == super::types::summary_of(
            schematic_changes(a, b),
        ).added,
        super::types::summary_of(schematic_changes(b, a)).modified == super::types::summary_of(
            schematic_changes(a, b),
        ).modified,
        super::types::summary_of(schematic_changes(b, a)).unchanged == super::types::summary_of(
            schematic_changes(a, b),
        ).unchanged,
{
    lemma_schematic_kinds();
    lemma_object_changes_swap::<Symbol>(a.symbols, b.symbols, MatchMethod::Reference);
    lemma_object_changes_swap::<Wire>(a.wires, b.wires, MatchMethod::Reference);
    lemma_object_changes_swap::<Junction>(a.junctions, b.junctions, MatchMethod::Reference);
    lemma_object_changes_swap::<Label>(a.labels, b.labels, MatchMethod::Name);
    lemma_object_changes_swap::<SchematicNet>(a.nets, b.nets, MatchMethod::Name);
    let s1 = object_changes::<Symbol>(a.symbols, b.symbols, MatchMethod::Reference);
    let s2 = object_changes::<Wire>(a.wires, b.wires, MatchMethod::Reference);
    let s3 = object_changes::<Junction>(a.junctions, b.junctions, MatchMethod::Reference);
    let s4 = object_changes::<Label>(a.labels, b.labels, MatchMethod::Name);
    let s5 = object_changes::<SchematicNet>(a.nets, b.nets, MatchMethod::Name);
    let t1 = object_changes::<Symbol>(b.symbols, a.symbols, MatchMethod::Reference);
    let t2 = object_changes::<Wire>(b.wires, a.wires, MatchMethod::Reference);
    let t3 = object_changes::<Junction>(b.junctions, a.junctions, MatchMethod::Reference);
    let t4 = object_changes::<Label>(b.labels, a.labels, MatchMethod::Name);
    let t5 = object_changes::<SchematicNet>(b.nets, a.nets, MatchMethod::Name);
    lemma_kind_count_five(s1, s2, s3, s4, s5, ChangeKind::Added);
    lemma_kind_count_five(s1, s2, s3, s4, s5, ChangeKind::Removed);
    lemma_kind_count_five(s1, s2, s3, s4, s5, ChangeKind::Modified);
    lemma_kind_count_five(s1, s2, s3, s4, s5, ChangeKind::Unchanged);
    lemma_kind_count_five(t1, t2, t3, t4, t5, ChangeKind::Added);
    lemma_kind_count_five(t1, t2, t3, t4, t5, ChangeKind::Removed);
    lemma_kind_count_five(t1, t2, t3, t4, t5, ChangeKind::Modified);
    lemma_kind_count_five(t1, t2, t3, t4, t5, ChangeKind::Unchanged);
}

} // verus!
