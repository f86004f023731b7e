//! Pairing of the objects of two revisions.
//!
//! Objects are paired first by their primary key (the object identifier), and
//! the objects left over are then paired by an optional fallback key (such as
//! a reference designator or a net name), but only where that fallback key is
//! unique on both sides, so that no ambiguous pair is ever made.

use vstd::prelude::*;

use super::types::MatchMethod;

verus! {

/// One entry of a pairing: an earlier object, a later object, or both.
#[derive(Clone, Copy, Debug, PartialEq, Eq)]
pub struct MatchedIndex {
    pub before: Option<usize>,
    pub after: Option<usize>,
    pub method: Option<MatchMethod>,
}

/// The keys by which an object is paired.
#[derive(Clone, Debug)]
pub struct MatchKey {
    pub primary: String,
    pub fallback: Option<String>,
}

pub struct SpecMatchKey {
    pub primary: Seq<char>,
    pub fallback: Option<Seq<char>>,
}

impl View for MatchKey {
    type V = SpecMatchKey;

    open spec fn view(&self) -> SpecMatchKey {
        SpecMatchKey { primary: self.primary@, fallback: self.fallback.deep_view() }
    }
}

pub open spec fn key_views(keys: Seq<MatchKey>) -> Seq<SpecMatchKey> {
    keys.map_values(|k: MatchKey| k@)
}

// ---------------------------------------------------------------------------
// Pairing by primary keys.

/// The first index below `n` whose primary key is `k`.
pub open spec fn first_primary(keys: Seq<SpecMatchKey>, k: Seq<char>, n: int) -> Option<int>
    decreases n,
{
    if n <= 0 {
        None
    } else {
        match first_primary(keys, k, n - 1) {
            Some(i) => Some(i),
            None => if keys[n - 1].primary == k {
                Some(n - 1)
            } else {
                None
            },
        }
    }
}

/// The last index below `n` whose primary key is `k`.
pub open spec fn last_primary(keys: Seq<SpecMatchKey>, k: Seq<char>, n: int) -> Option<int>
    decreases n,
{
    if n <= 0 {
        None
    } else if keys[n - 1].primary == k {
        Some(n - 1)
    } else {
        last_primary(keys, k, n - 1)
    }
}

/// The later object that the earlier object `i` is paired with by primary key:
/// the last later object with that key, provided that `i` is the first earlier
/// object with it.
pub open spec fn primary_partner(bk: Seq<SpecMatchKey>, ak: Seq<SpecMatchKey>, i: int) -> Option<
    int,
> {
    let k = bk[i].primary;
    if first_primary(bk, k, bk.len() as int) == Some(i) {
        last_primary(ak, k, ak.len() as int)
    } else {
        None
    }
}

/// The earlier object `i` is paired by primary key.
pub open spec fn before_primary_used(bk: Seq<SpecMatchKey>, ak: Seq<SpecMatchKey>, i: int) -> bool {
    primary_partner(bk, ak, i) is Some
}

/// The later object `j` is paired by primary key with one of the first `n`
/// earlier objects.
pub open spec fn after_primary_used(
    bk: Seq<SpecMatchKey>,
    ak: Seq<SpecMatchKey>,
    j: int,
    n: int,
) -> bool {
    let k = ak[j].primary;
    last_primary(ak, k, ak.len() as int) == Some(j) && first_primary(bk, k, n) is Some
}

/// Which earlier objects are paired by primary key.
pub open spec fn before_primary_flags(bk: Seq<SpecMatchKey>, ak: Seq<SpecMatchKey>) -> Seq<bool> {
    Seq::new(bk.len(), |i: int| before_primary_used(bk, ak, i))
}

/// Which later objects are paired by primary key.
pub open spec fn after_primary_flags(bk: Seq<SpecMatchKey>, ak: Seq<SpecMatchKey>) -> Seq<bool> {
    Seq::new(ak.len(), |j: int| after_primary_used(bk, ak, j, bk.len() as int))
}

// ---------------------------------------------------------------------------
// Pairing by fallback keys.

/// Object `x` is still unpaired and has fallback key `k`.
pub open spec fn fallback_hit(keys: Seq<SpecMatchKey>, used: Seq<bool>, k: Seq<char>, x: int) -> bool {
    !used[x] && keys[x].fallback == Some(k)
}

/// How many of the first `n` objects are still unpaired and have fallback key `k`.
pub open spec fn fallback_count(keys: Seq<SpecMatchKey>, used: Seq<bool>, k: Seq<char>, n: int) -> nat
    decreases n,
{
    if n <= 0 {
        0
    } else {
        fallback_count(keys, used, k, n - 1) + if fallback_hit(keys, used, k, n - 1) {
            1nat
        } else {
            0nat
        }
    }
}

/// The last of the first `n` objects that is still unpaired and has fallback key `k`.
pub open spec fn last_fallback(keys: Seq<SpecMatchKey>, used: Seq<bool>, k: Seq<char>, n: int) -> Option<
    int,
>
    decreases n,
{
    if n <= 0 {
        None
    } else if fallback_hit(keys, used, k, n - 1) {
        Some(n - 1)
    } else {
        last_fallback(keys, used, k, n - 1)
    }
}

/// The fallback key `k` is held by exactly one unpaired earlier object and by
/// exactly one unpaired later object.
pub open spec fn fallback_unique(bk: Seq<SpecMatchKey>, ak: Seq<SpecMatchKey>, k: Seq<char>) -> bool {
    &&& fallback_count(bk, before_primary_flags(bk, ak), k, bk.len() as int) == 1
    &&& fallback_count(ak, after_primary_flags(bk, ak), k, ak.len() as int) == 1
}

/// The later object that the earlier object `i` is paired with by fallback key.
pub open spec fn fallback_partner(bk: Seq<SpecMatchKey>, ak: Seq<SpecMatchKey>, i: int) -> Option<
    int,
> {
    if before_primary_used(bk, ak, i) {
        None
    } else {
        match bk[i].fallback {
            Some(k) => if fallback_unique(bk, ak, k) {
                last_fallback(ak, after_primary_flags(bk, ak), k, ak.len() as int)
            } else {
                None
            },
            None => None,
        }
    }
}

/// The later object `j` is paired by fallback key.
pub open spec fn after_fallback_used(bk: Seq<SpecMatchKey>, ak: Seq<SpecMatchKey>, j: int) -> bool {
    &&& !after_primary_used(bk, ak, j, bk.len() as int)
    &&& match ak[j].fallback {
        Some(k) => fallback_unique(bk, ak, k),
        None => false,
    }
}

pub open spec fn before_paired(bk: Seq<SpecMatchKey>, ak: Seq<SpecMatchKey>, i: int) -> bool {
    primary_partner(bk, ak, i) is Some || fallback_partner(bk, ak, i) is Some
}

pub open spec fn after_paired(bk: Seq<SpecMatchKey>, ak: Seq<SpecMatchKey>, j: int) -> bool {
    after_primary_used(bk, ak, j, bk.len() as int) || after_fallback_used(bk, ak, j)
}

// ---------------------------------------------------------------------------
// The pairing, in the order in which it is reported.

/// Pairs by primary key of the first `n` earlier objects, in their order.
pub open spec fn primary_pairs(bk: Seq<SpecMatchKey>, ak: Seq<SpecMatchKey>, n: int) -> Seq<
    MatchedIndex,
>
    decreases n,
{
    if n <= 0 {
        seq![]
    } else {
        primary_pairs(bk, ak, n - 1) + match primary_partner(bk, ak, n - 1) {
            Some(j) => seq![
                MatchedIndex {
                    before: Some((n - 1) as usize),
                    after: Some(j as usize),
                    method: Some(MatchMethod::ObjectId),
                },
            ],
            None => seq![],
        }
    }
}

/// Pairs by fallback key of the first `n` earlier objects, in their order.
pub open spec fn fallback_pairs(
    bk: Seq<SpecMatchKey>,
    ak: Seq<SpecMatchKey>,
    method: MatchMethod,
    n: int,
) -> Seq<MatchedIndex>
    decreases n,
{
    if n <= 0 {
        seq![]
    } else {
        fallback_pairs(bk, ak, method, n - 1) + match fallback_partner(bk, ak, n - 1) {
            Some(j) => seq![
                MatchedIndex {
                    before: Some((n - 1) as usize),
                    after: Some(j as usize),
                    method: Some(method),
                },
            ],
            None => seq![],
        }
    }
}

/// The unpaired ones of the first `n` earlier objects, in their order.
pub open spec fn unpaired_before(bk: Seq<SpecMatchKey>, ak: Seq<SpecMatchKey>, n: int) -> Seq<
    MatchedIndex,
>
    decreases n,
{
    if n <= 0 {
        seq![]
    } else {
        unpaired_before(bk, ak, n - 1) + if before_paired(bk, ak, n - 1) {
            seq![]
        } else {
            seq![MatchedIndex { before: Some((n - 1) as usize), after: None, method: None }]
        }
    }
}

/// The unpaired ones of the first `n` later objects, in their order.
pub open spec fn unpaired_after(bk: Seq<SpecMatchKey>, ak: Seq<SpecMatchKey>, n: int) -> Seq<
    MatchedIndex,
>
    decreases n,
{
    if n <= 0 {
        seq![]
    } else {
        unpaired_after(bk, ak, n - 1) + if after_paired(bk, ak, n - 1) {
            seq![]
        } else {
            seq![MatchedIndex { before: None, after: Some((n - 1) as usize), method: None }]
        }
    }
}

/// The pairing of earlier objects with keys `bk` and later objects with keys
/// `ak`: pairs by primary key, then pairs by fallback key, then the unpaired
/// earlier objects, then the unpaired later objects.
pub open spec fn spec_match_items(
    bk: Seq<SpecMatchKey>,
    ak: Seq<SpecMatchKey>,
    method: MatchMethod,
) -> Seq<MatchedIndex> {
    primary_pairs(bk, ak, bk.len() as int) + fallback_pairs(bk, ak, method, bk.len() as int)
        + unpaired_before(bk, ak, bk.len() as int) + unpaired_after(bk, ak, ak.len() as int)
}

// ---------------------------------------------------------------------------
// Facts about the definitions.

pub(crate) proof fn lemma_first_primary(keys: Seq<SpecMatchKey>, k: Seq<char>, n: int)
    ensures
        match first_primary(keys, k, n) {
            Some(i) => 0 <= i < n && keys[i].primary == k && forall|x: int|
                0 <= x < i ==> keys[x].primary != k,
            None => forall|x: int| 0 <= x < n ==> keys[x].primary != k,
        },
    decreases n,
{
    if n > 0 {
        lemma_first_primary(keys, k, n - 1);
    }
}

pub(crate) proof fn lemma_first_primary_stable(keys: Seq<SpecMatchKey>, k: Seq<char>, n: int, m: int)
    requires
        n <= m,
        first_primary(keys, k, n) is Some,
    ensures
        first_primary(keys, k, m) == first_primary(keys, k, n),
    decreases m - n,
{
    if n < m {
        lemma_first_primary_stable(keys, k, n, m - 1);
    }
}

pub(crate) proof fn lemma_last_primary(keys: Seq<SpecMatchKey>, k: Seq<char>, n: int)
    ensures
        match last_primary(keys, k, n) {
            Some(j) => 0 <= j < n && keys[j].primary == k && forall|x: int|
                j < x < n ==> keys[x].primary != k,
            None => forall|x: int| 0 <= x < n ==> keys[x].primary != k,
        },
    decreases n,
{
    if n > 0 {
        lemma_last_primary(keys, k, n - 1);
    }
}

pub(crate) proof fn lemma_last_fallback(keys: Seq<SpecMatchKey>, used: Seq<bool>, k: Seq<char>, n: int)
    ensures
        match last_fallback(keys, used, k, n) {
            Some(j) => 0 <= j < n && fallback_hit(keys, used, k, j) && forall|x: int|
                j < x < n ==> !fallback_hit(keys, used, k, x),
            None => forall|x: int| 0 <= x < n ==> !fallback_hit(keys, used, k, x),
        },
    decreases n,
{
    if n > 0 {
        lemma_last_fallback(keys, used, k, n - 1);
    }
}

pub(crate) proof fn lemma_fallback_count_bounds(keys: Seq<SpecMatchKey>, used: Seq<bool>, k: Seq<char>, n: int)
    requires
        0 <= n,
    ensures
        fallback_count(keys, used, k, n) <= n,
        fallback_count(keys, used, k, n) > 0 ==> exists|x: int|
            0 <= x < n && fallback_hit(keys, used, k, x),
    decreases n,
{
    if n > 0 {
        lemma_fallback_count_bounds(keys, used, k, n - 1);
    }
}

/// Two distinct hits below `n` make the count at least two.
pub(crate) proof fn lemma_fallback_count_two(
    keys: Seq<SpecMatchKey>,
    used: Seq<bool>,
    k: Seq<char>,
    n: int,
    a: int,
    b: int,
)
    requires
        0 <= a < b < n,
        fallback_hit(keys, used, k, a),
        fallback_hit(keys, used, k, b),
    ensures
        fallback_count(keys, used, k, n) >= 2,
    decreases n,
{
    if b < n - 1 {
        lemma_fallback_count_two(keys, used, k, n - 1, a, b);
    } else {
        lemma_fallback_count_one(keys, used, k, n - 1, a);
    }
}

/// One hit below `n` makes the count at least one.
pub(crate) proof fn lemma_fallback_count_one(keys: Seq<SpecMatchKey>, used: Seq<bool>, k: Seq<char>, n: int, a: int)
    requires
        0 <= a < n,
        fallback_hit(keys, used, k, a),
    ensures
        fallback_count(keys, used, k, n) >= 1,
    decreases n,
{
    if a < n - 1 {
        lemma_fallback_count_one(keys, used, k, n - 1, a);
    }
}

/// A hit is the last hit when the count is one.
pub(crate) proof fn lemma_single_hit_is_last(
    keys: Seq<SpecMatchKey>,
    used: Seq<bool>,
    k: Seq<char>,
    n: int,
    a: int,
)
    requires
        0 <= a < n,
        fallback_hit(keys, used, k, a),
        fallback_count(keys, used, k, n) == 1,
    ensures
        last_fallback(keys, used, k, n) == Some(a),
{
    lemma_last_fallback(keys, used, k, n);
    let last = last_fallback(keys, used, k, n);
    if last != Some(a) {
        let j = last->0;
        if j < a {
            // a would be a later hit than the last one
        } else {
            lemma_fallback_count_two(keys, used, k, n, a, j);
        }
    }
}

/// A later object is paired by fallback key exactly when some earlier object
/// names it as its fallback partner.
pub(crate) proof fn lemma_after_fallback_used(bk: Seq<SpecMatchKey>, ak: Seq<SpecMatchKey>, j: int)
    requires
        0 <= j < ak.len(),
    ensures
        after_fallback_used(bk, ak, j) <==> exists|x: int|
            0 <= x < bk.len() && fallback_partner(bk, ak, x) == Some(j),
{
    let bflags = before_primary_flags(bk, ak);
    let aflags = after_primary_flags(bk, ak);
    if after_fallback_used(bk, ak, j) {
        let k = ak[j].fallback->0;
        assert(fallback_hit(ak, aflags, k, j));
        lemma_single_hit_is_last(ak, aflags, k, ak.len() as int, j);
        lemma_fallback_count_bounds(bk, bflags, k, bk.len() as int);
        let x = choose|x: int| 0 <= x < bk.len() && fallback_hit(bk, bflags, k, x);
        assert(fallback_partner(bk, ak, x) == Some(j));
    }
    assert forall|x: int| 0 <= x < bk.len() && fallback_partner(bk, ak, x) == Some(j) implies after_fallback_used(
        bk,
        ak,
        j,
    ) by {
        let k = bk[x].fallback->0;
        lemma_last_fallback(ak, aflags, k, ak.len() as int);
    }
}

/// An entry of a pairing of `nb` earlier and `na` later objects names an
/// earlier object, a later object, or both, within range, and carries a
/// method exactly when it names both.
pub open spec fn entry_in_range(nb: int, na: int, e: MatchedIndex) -> bool {
    match (e.before, e.after) {
        (Some(i), Some(j)) => i < nb && j < na && e.method is Some,
        (Some(i), None) => i < nb && e.method is None,
        (None, Some(j)) => j < na && e.method is None,
        (None, None) => false,
    }
}

pub(crate) proof fn lemma_primary_pairs_in_range(bk: Seq<SpecMatchKey>, ak: Seq<SpecMatchKey>, n: int)
    requires
        n <= bk.len() <= usize::MAX,
        ak.len() <= usize::MAX,
    ensures
        forall|t: int|
            0 <= t < primary_pairs(bk, ak, n).len() ==> entry_in_range(
                bk.len() as int,
                ak.len() as int,
                #[trigger] primary_pairs(bk, ak, n)[t],
            ),
    decreases n,
{
    if n > 0 {
        lemma_primary_pairs_in_range(bk, ak, n - 1);
        lemma_last_primary(ak, bk[n - 1].primary, ak.len() as int);
        let prev = primary_pairs(bk, ak, n - 1);
        let s = primary_pairs(bk, ak, n);
        assert forall|t: int| 0 <= t < s.len() implies entry_in_range(
            bk.len() as int,
            ak.len() as int,
            #[trigger] s[t],
        ) by {
            if t < prev.len() {
                assert(s[t] == prev[t]);
            }
        }
    }
}

pub(crate) proof fn lemma_fallback_pairs_in_range(
    bk: Seq<SpecMatchKey>,
    ak: Seq<SpecMatchKey>,
    method: MatchMethod,
    n: int,
)
    requires
        n <= bk.len() <= usize::MAX,
        ak.len() <= usize::MAX,
    ensures
        forall|t: int|
            0 <= t < fallback_pairs(bk, ak, method, n).len() ==> entry_in_range(
                bk.len() as int,
                ak.len() as int,
                #[trigger] fallback_pairs(bk, ak, method, n)[t],
            ),
    decreases n,
{
    if n > 0 {
        lemma_fallback_pairs_in_range(bk, ak, method, n - 1);
        if let Some(k) = bk[n - 1].fallback {
            lemma_last_fallback(ak, after_primary_flags(bk, ak), k, ak.len() as int);
        }
        let prev = fallback_pairs(bk, ak, method, n - 1);
        let s = fallback_pairs(bk, ak, method, n);
        assert forall|t: int| 0 <= t < s.len() implies entry_in_range(
            bk.len() as int,
            ak.len() as int,
            #[trigger] s[t],
        ) by {
            if t < prev.len() {
                assert(s[t] == prev[t]);
            }
        }
    }
}

pub(crate) proof fn lemma_unpaired_before_in_range(bk: Seq<SpecMatchKey>, ak: Seq<SpecMatchKey>, n: int)
    requires
        n <= bk.len() <= usize::MAX,
    ensures
        forall|t: int|
            0 <= t < unpaired_before(bk, ak, n).len() ==> entry_in_range(
                bk.len() as int,
                ak.len() as int,
                #[trigger] unpaired_before(bk, ak, n)[t],
            ),
    decreases n,
{
    if n > 0 {
        lemma_unpaired_before_in_range(bk, ak, n - 1);
        let prev = unpaired_before(bk, ak, n - 1);
        let s = unpaired_before(bk, ak, n);
        assert forall|t: int| 0 <= t < s.len() implies entry_in_range(
            bk.len() as int,
            ak.len() as int,
            #[trigger] s[t],
        ) by {
            if t < prev.len() {
                assert(s[t] == prev[t]);
            }
        }
    }
}

pub(crate) proof fn lemma_unpaired_after_in_range(bk: Seq<SpecMatchKey>, ak: Seq<SpecMatchKey>, m: int)
    requires
        m <= ak.len() <= usize::MAX,
    ensures
        forall|t: int|
            0 <= t < unpaired_after(bk, ak, m).len() ==> entry_in_range(
                bk.len() as int,
                ak.len() as int,
                #[trigger] unpaired_after(bk, ak, m)[t],
            ),
    decreases m,
{
    if m > 0 {
        lemma_unpaired_after_in_range(bk, ak, m - 1);
        let prev = unpaired_after(bk, ak, m - 1);
        let s = unpaired_after(bk, ak, m);
        assert forall|t: int| 0 <= t < s.len() implies entry_in_range(
            bk.len() as int,
            ak.len() as int,
            #[trigger] s[t],
        ) by {
            if t < prev.len() {
                assert(s[t] == prev[t]);
            }
        }
    }
}

/// Every entry of a pairing is in range.
pub proof fn lemma_match_items_in_range(
    bk: Seq<SpecMatchKey>,
    ak: Seq<SpecMatchKey>,
    method: MatchMethod,
)
    requires
        bk.len() <= usize::MAX,
        ak.len() <= usize::MAX,
    ensures
        forall|t: int|
            0 <= t < spec_match_items(bk, ak, method).len() ==> entry_in_range(
                bk.len() as int,
                ak.len() as int,
                #[trigger] spec_match_items(bk, ak, method)[t],
            ),
{
    let nb = bk.len() as int;
    let na = ak.len() as int;
    lemma_primary_pairs_in_range(bk, ak, nb);
    lemma_fallback_pairs_in_range(bk, ak, method, nb);
    lemma_unpaired_before_in_range(bk, ak, nb);
    lemma_unpaired_after_in_range(bk, ak, na);
    let p = primary_pairs(bk, ak, nb);
    let f = fallback_pairs(bk, ak, method, nb);
    let u = unpaired_before(bk, ak, nb);
    let v = unpaired_after(bk, ak, na);
    assert forall|t: int| 0 <= t < spec_match_items(bk, ak, method).len() implies entry_in_range(
        nb,
        na,
        #[trigger] spec_match_items(bk, ak, method)[t],
    ) by {
        let s = spec_match_items(bk, ak, method);
        if t < p.len() {
            assert(s[t] == p[t]);
        } else if t < p.len() + f.len() {
            assert(s[t] == f[t - p.len()]);
        } else if t < p.len() + f.len() + u.len() {
            assert(s[t] == u[t - p.len() - f.len()]);
        } else {
            assert(s[t] == v[t - p.len() - f.len() - u.len()]);
        }
    }
}

// ---------------------------------------------------------------------------
// Executable pairing.

/// The last of `keys` whose primary key is `k`.
fn last_with_primary(keys: &[MatchKey], k: &String) -> (r: Option<usize>)
    ensures
        match r {
            Some(j) => last_primary(key_views(keys@), k@, keys@.len() as int) == Some(j as int),
            None => last_primary(key_views(keys@), k@, keys@.len() as int) is None,
        },
{
    let ghost kv = key_views(keys@);
    let mut j = keys.len();
    while j > 0
        invariant
            j <= keys@.len(),
            kv == key_views(keys@),
            last_primary(kv, k@, keys@.len() as int) == last_primary(kv, k@, j as int),
        decreases j,
    {
        j = j - 1;
        if keys[j].primary == *k {
            return Some(j);
        }
    }
    None
}

/// Whether the object `x` is unpaired and has fallback key `k`.
fn is_fallback_hit(keys: &[MatchKey], used: &Vec<bool>, k: &String, x: usize) -> (r: bool)
    requires
        x < keys@.len(),
        used@.len() == keys@.len(),
    ensures
        r == fallback_hit(key_views(keys@), used@, k@, x as int),
{
    if used[x] {
        return false;
    }
    match &keys[x].fallback {
        Some(f) => *f == *k,
        None => false,
    }
}

/// How many of `keys` are unpaired and have fallback key `k`.
fn count_fallback(keys: &[MatchKey], used: &Vec<bool>, k: &String) -> (c: usize)
    requires
        used@.len() == keys@.len(),
    ensures
        c == fallback_count(key_views(keys@), used@, k@, keys@.len() as int),
{
    let mut c: usize = 0;
    let mut x: usize = 0;
    while x < keys.len()
        invariant
            x <= keys@.len(),
            used@.len() == keys@.len(),
            c == fallback_count(key_views(keys@), used@, k@, x as int),
        decreases keys@.len() - x,
    {
        proof {
            lemma_fallback_count_bounds(key_views(keys@), used@, k@, x as int);
        }
        if is_fallback_hit(keys, used, k, x) {
            c = c + 1;
        }
        x = x + 1;
    }
    c
}

/// The last of `keys` that is unpaired and has fallback key `k`.
fn last_with_fallback(keys: &[MatchKey], used: &Vec<bool>, k: &String) -> (r: Option<usize>)
    requires
        used@.len() == keys@.len(),
    ensures
        match r {
            Some(j) => last_fallback(key_views(keys@), used@, k@, keys@.len() as int) == Some(
                j as int,
            ),
            None => last_fallback(key_views(keys@), used@, k@, keys@.len() as int) is None,
        },
{
    let mut j = keys.len();
    while j > 0
        invariant
            j <= keys@.len(),
            used@.len() == keys@.len(),
            last_fallback(key_views(keys@), used@, k@, keys@.len() as int) == last_fallback(
                key_views(keys@),
                used@,
                k@,
                j as int,
            ),
        decreases j,
    {
        j = j - 1;
        if is_fallback_hit(keys, used, k, j) {
            return Some(j);
        }
    }
    None
}

fn falses(n: usize) -> (v: Vec<bool>)
    ensures
        v@.len() == n,
        forall|i: int| 0 <= i < n ==> !v@[i],
{
    let mut v: Vec<bool> = Vec::new();
    let mut i: usize = 0;
    while i < n
        invariant
            i <= n,
            v@.len() == i,
            forall|x: int| 0 <= x < i ==> !v@[x],
        decreases n - i,
    {
        v.push(false);
        i = i + 1;
    }
    v
}

/// Pairs the objects of two revisions, given the keys of each object.
///
/// An earlier object is paired by primary key with the last later object of
/// the same primary key, if it is the first earlier object with that key. The
/// objects left over are paired by fallback key where that key belongs to
/// exactly one of the left-over earlier objects and exactly one of the
/// left-over later objects; such pairs carry `fallback_method`. The result
/// lists the primary pairs, the fallback pairs, the unpaired earlier objects
/// and the unpaired later objects, each group in index order.
pub fn match_keys(before: &[MatchKey], after: &[MatchKey], fallback_method: MatchMethod) -> (matches:
    Vec<MatchedIndex>)
    ensures
        matches@ == spec_match_items(key_views(before@), key_views(after@), fallback_method),
{
    let ghost bk = key_views(before@);
    let ghost ak = key_views(after@);
    let nb = before.len();
    let na = after.len();
    let mut matches: Vec<MatchedIndex> = Vec::new();
    let mut before_used = falses(nb);
    let mut after_used = falses(na);

    // Pairs by primary key.
    let mut i: usize = 0;
    while i < nb
        invariant
            i <= nb,
            nb == before@.len(),
            na == after@.len(),
            bk == key_views(before@),
            ak == key_views(after@),
            before_used@.len() == nb,
            after_used@.len() == na,
            forall|x: int| 0 <= x < i ==> before_used@[x] == before_primary_used(bk, ak, x),
            forall|x: int| i <= x < nb ==> !before_used@[x],
            forall|j: int| 0 <= j < na ==> after_used@[j] == after_primary_used(bk, ak, j, i as int),
            matches@ == primary_pairs(bk, ak, i as int),
        decreases nb - i,
    {
        let ghost k = bk[i as int].primary;
        let found = last_with_primary(after, &before[i].primary);
        proof {
            lemma_last_primary(ak, k, na as int);
            lemma_first_primary(bk, k, i as int);
            assert forall|k2: Seq<char>| k2 != k implies first_primary(bk, k2, i + 1)
                == first_primary(bk, k2, i as int) by {}
        }
        match found {
            Some(j) => {
                if !after_used[j] {
                    proof {
                        assert(first_primary(bk, k, i + 1) == Some(i as int));
                        lemma_first_primary_stable(bk, k, i + 1, nb as int);
                    }
                    before_used.set(i, true);
                    after_used.set(j, true);
                    matches.push(
                        MatchedIndex {
                            before: Some(i),
                            after: Some(j),
                            method: Some(MatchMethod::ObjectId),
                        },
                    );
                } else {
                    proof {
                        lemma_first_primary_stable(bk, k, i as int, i + 1);
                        lemma_first_primary_stable(bk, k, i as int, nb as int);
                        lemma_first_primary(bk, k, i as int);
                    }
                }
            },
            None => {
                proof {
                    if first_primary(bk, k, i as int) is Some {
                        lemma_first_primary_stable(bk, k, i as int, nb as int);
                        lemma_first_primary(bk, k, i as int);
                    }
                }
            },
        }
        proof {
            assert forall|j: int| 0 <= j < na implies after_used@[j] == after_primary_used(
                bk,
                ak,
                j,
                i + 1,
            ) by {
                lemma_last_primary(ak, ak[j].primary, na as int);
            }
            assert(primary_pairs(bk, ak, i + 1) == primary_pairs(bk, ak, i as int) + match primary_partner(
                bk,
                ak,
                i as int,
            ) {
                Some(j) => seq![
                    MatchedIndex {
                        before: Some(i),
                        after: Some(j as usize),
                        method: Some(MatchMethod::ObjectId),
                    },
                ],
                None => seq![],
            });
        }
        i = i + 1;
    }
    assert(before_used@ =~= before_primary_flags(bk, ak));
    assert(after_used@ =~= after_primary_flags(bk, ak));

    // The fallback partner of each earlier object.
    let mut targets: Vec<Option<usize>> = Vec::new();
    let mut i: usize = 0;
    while i < nb
        invariant
            i <= nb,
            nb == before@.len(),
            na == after@.len(),
            bk == key_views(before@),
            ak == key_views(after@),
            before_used@ == before_primary_flags(bk, ak),
            after_used@ == after_primary_flags(bk, ak),
            targets@.len() == i,
            forall|x: int|
                0 <= x < i ==> match #[trigger] targets@[x] {
                    Some(j) => fallback_partner(bk, ak, x) == Some(j as int),
                    None => fallback_partner(bk, ak, x) is None,
                },
        decreases nb - i,
    {
        let mut target: Option<usize> = None;
        if !before_used[i] {
            match &before[i].fallback {
                Some(k) => {
                    let count_before = count_fallback(before, &before_used, k);
                    let count_after = count_fallback(after, &after_used, k);
                    if count_before == 1 && count_after == 1 {
                        target = last_with_fallback(after, &after_used, k);
                    }
                },
                None => {},
            }
        }
        targets.push(target);
        i = i + 1;
    }

    // Pairs by fallback key.
    let ghost primary_matches = matches@;
    let mut i: usize = 0;
    while i < nb
        invariant
            i <= nb,
            nb == before@.len(),
            na == after@.len(),
            bk == key_views(before@),
            ak == key_views(after@),
            primary_matches == primary_pairs(bk, ak, nb as int),
            targets@.len() == nb,
            forall|x: int|
                0 <= x < nb ==> match #[trigger] targets@[x] {
                    Some(j) => fallback_partner(bk, ak, x) == Some(j as int),
                    None => fallback_partner(bk, ak, x) is None,
                },
            before_used@.len() == nb,
            after_used@.len() == na,
            forall|x: int|
                0 <= x < nb ==> before_used@[x] == (before_primary_used(bk, ak, x) || (x < i
                    && fallback_partner(bk, ak, x) is Some)),
            forall|j: int|
                0 <= j < na ==> after_used@[j] == (after_primary_used(bk, ak, j, nb as int) || exists|
                    x: int,
                | 0 <= x < i && fallback_partner(bk, ak, x) == Some(j)),
            matches@ == primary_matches + fallback_pairs(bk, ak, fallback_method, i as int),
        decreases nb - i,
    {
        match targets[i] {
            Some(j) => {
                proof {
                    let k = bk[i as int].fallback->0;
                    lemma_last_fallback(ak, after_primary_flags(bk, ak), k, na as int);
                }
                before_used.set(i, true);
                after_used.set(j, true);
                matches.push(
                    MatchedIndex { before: Some(i), after: Some(j), method: Some(fallback_method) },
                );
                proof {
                    assert forall|j2: int| 0 <= j2 < na implies after_used@[j2] == (
                    after_primary_used(bk, ak, j2, nb as int) || exists|x: int|
                        0 <= x < i + 1 && fallback_partner(bk, ak, x) == Some(j2)) by {
                        if j2 == j {
                            assert(fallback_partner(bk, ak, i as int) == Some(j2));
                        } else if exists|x: int|
                            0 <= x < i + 1 && fallback_partner(bk, ak, x) == Some(j2) {
                            let x = choose|x: int|
                                0 <= x < i + 1 && fallback_partner(bk, ak, x) == Some(j2);
                            assert(x != i);
                        }
                    }
                }
            },
            None => {
                proof {
                    assert forall|j2: int| 0 <= j2 < na implies after_used@[j2] == (
                    after_primary_used(bk, ak, j2, nb as int) || exists|x: int|
                        0 <= x < i + 1 && fallback_partner(bk, ak, x) == Some(j2)) by {
                        if exists|x: int|
                            0 <= x < i + 1 && fallback_partner(bk, ak, x) == Some(j2) {
                            let x = choose|x: int|
                                0 <= x < i + 1 && fallback_partner(bk, ak, x) == Some(j2);
                            assert(x != i);
                        }
                    }
                }
            },
        }
        i = i + 1;
    }

    // The unpaired earlier objects.
    let ghost paired_matches = matches@;
    let mut i: usize = 0;
    while i < nb
        invariant
            i <= nb,
            nb == before@.len(),
            bk == key_views(before@),
            ak == key_views(after@),
            before_used@.len() == nb,
            forall|x: int|
                0 <= x < nb ==> before_used@[x] == (before_primary_used(bk, ak, x)
                    || fallback_partner(bk, ak, x) is Some),
            matches@ == paired_matches + unpaired_before(bk, ak, i as int),
        decreases nb - i,
    {
        if !before_used[i] {
            matches.push(MatchedIndex { before: Some(i), after: None, method: None });
        }
        i = i + 1;
    }

    // The unpaired later objects.
    let ghost listed_before = matches@;
    let mut j: usize = 0;
    while j < na
        invariant
            j <= na,
            na == after@.len(),
            nb == before@.len(),
            bk == key_views(before@),
            ak == key_views(after@),
            after_used@.len() == na,
            forall|x: int|
                0 <= x < na ==> after_used@[x] == (after_primary_used(bk, ak, x, nb as int) || exists|
                    y: int,
                | 0 <= y < nb && fallback_partner(bk, ak, y) == Some(x)),
            matches@ == listed_before + unpaired_after(bk, ak, j as int),
        decreases na - j,
    {
        proof {
            lemma_after_fallback_used(bk, ak, j as int);
        }
        if !after_used[j] {
            matches.push(MatchedIndex { before: None, after: Some(j), method: None });
        }
        j = j + 1;
    }
    matches
}


/// `keys` are keys that `primary_key` and `fallback_key` can give for
/// `items`, item by item.
pub open spec fn keys_of_items<T, P: Fn(&T) -> String, F: Fn(&T) -> Option<String>>(
    items: Seq<T>,
    keys: Seq<MatchKey>,
    primary_key: P,
    fallback_key: F,
) -> bool {
    &&& keys.len() == items.len()
    &&& forall|i: int|
        0 <= i < items.len() ==> call_ensures(primary_key, (&items[i],), #[trigger] keys[i].primary)
            && call_ensures(fallback_key, (&items[i],), keys[i].fallback)
}

/// The keys that `primary_key` and `fallback_key` give for `items`.
fn item_keys<T, P: Fn(&T) -> String, F: Fn(&T) -> Option<String>>(
    items: &[T],
    primary_key: &P,
    fallback_key: &F,
) -> (keys: Vec<MatchKey>)
    requires
        forall|x: &T| #[trigger] primary_key.requires((x,)),
        forall|x: &T| #[trigger] fallback_key.requires((x,)),
    ensures
        keys_of_items(items@, keys@, *primary_key, *fallback_key),
{
    let mut keys: Vec<MatchKey> = Vec::new();
    let mut i: usize = 0;
    while i < items.len()
        invariant
            i <= items@.len(),
            keys@.len() == i,
            forall|x: &T| #[trigger] primary_key.requires((x,)),
            forall|x: &T| #[trigger] fallback_key.requires((x,)),
            forall|j: int|
                0 <= j < i ==> call_ensures(*primary_key, (&items@[j],), #[trigger] keys@[j].primary)
                    && call_ensures(*fallback_key, (&items@[j],), keys@[j].fallback),
        decreases items@.len() - i,
    {
        let primary = primary_key(&items[i]);
        let fallback = fallback_key(&items[i]);
        keys.push(MatchKey { primary, fallback });
        i = i + 1;
    }
    keys
}

/// Pairs the objects of two revisions, with the keys that `primary_key` and
/// `fallback_key` give for each object: the pairing of `match_keys` on those
/// keys.
pub fn match_items<T, P: Fn(&T) -> String, F: Fn(&T) -> Option<String>>(
    before: &[T],
    after: &[T],
    primary_key: P,
    fallback_key: F,
    fallback_method: MatchMethod,
) -> (matches: Vec<MatchedIndex>)
    requires
        forall|x: &T| #[trigger] primary_key.requires((x,)),
        forall|x: &T| #[trigger] fallback_key.requires((x,)),
    ensures
        exists|bk: Seq<MatchKey>, ak: Seq<MatchKey>|
            keys_of_items(before@, bk, primary_key, fallback_key) && keys_of_items(
                after@,
                ak,
                primary_key,
                fallback_key,
            ) && matches@ == spec_match_items(key_views(bk), key_views(ak), fallback_method),
{
    let before_keys = item_keys(before, &primary_key, &fallback_key);
    let after_keys = item_keys(after, &primary_key, &fallback_key);
    let matches = match_keys(before_keys.as_slice(), after_keys.as_slice(), fallback_method);
    assert(keys_of_items(before@, before_keys@, primary_key, fallback_key) && keys_of_items(
        after@,
        after_keys@,
        primary_key,
        fallback_key,
    ) && matches@ == spec_match_items(
        key_views(before_keys@),
        key_views(after_keys@),
        fallback_method,
    ));
    matches
}

} // verus!
