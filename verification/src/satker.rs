//! Work units ("satker") and the selection order: active units, least
//! recently refreshed first, never-fetched units first of all.

use vstd::prelude::*;

verus! {

/// A work unit: an opaque identifying code, an active flag, and the time of
/// the last fully committed reconciliation, absent when the unit was never
/// fetched. Timestamps are plain instants; they only ever advance.
pub struct Satker {
    pub kd_satker: String,
    pub is_active: bool,
    pub last_fetch_date: Option<u64>,
}

/// Mathematical view of a work unit.
#[verifier::ext_equal]
pub ghost struct SatkerV {
    pub kd_satker: Seq<char>,
    pub is_active: bool,
    pub last_fetch_date: Option<u64>,
}

impl View for Satker {
    type V = SatkerV;

    open spec fn view(&self) -> SatkerV {
        SatkerV {
            kd_satker: self.kd_satker@,
            is_active: self.is_active,
            last_fetch_date: self.last_fetch_date,
        }
    }
}

impl DeepView for Satker {
    type V = SatkerV;

    open spec fn deep_view(&self) -> SatkerV {
        self.view()
    }
}

/// Freshness rank of a unit: never-fetched units rank below every fetched
/// one, fetched units rank by their timestamp.
pub open spec fn rank(u: SatkerV) -> int {
    match u.last_fetch_date {
        Option::Some(t) => t as int,
        Option::None => -1,
    }
}

/// Recorded fetch times never lie in the future of the current instant.
pub open spec fn clock_ok(units: Seq<SatkerV>, now: u64) -> bool {
    forall|j: int| 0 <= j < units.len() ==> rank(#[trigger] units[j]) <= now as int
}

/// Ascending freshness: every earlier element ranks at or below every later
/// one.
pub open spec fn sorted_by_rank(s: Seq<SatkerV>) -> bool {
    forall|i: int, j: int| 0 <= i <= j < s.len() ==> rank(#[trigger] s[i]) <= rank(#[trigger] s[j])
}

/// Inserts a unit into a rank-sorted sequence, before the first element of
/// equal or greater rank.
pub open spec fn insert_sorted(u: SatkerV, s: Seq<SatkerV>) -> Seq<SatkerV>
    decreases s.len(),
{
    if s.len() == 0 {
        seq![u]
    } else if rank(u) <= rank(s[0]) {
        seq![u] + s
    } else {
        seq![s[0]] + insert_sorted(u, s.skip(1))
    }
}

/// Sorts units by ascending freshness rank; elements of equal rank keep their
/// relative order.
pub open spec fn sort_stale(s: Seq<SatkerV>) -> Seq<SatkerV>
    decreases s.len(),
{
    if s.len() == 0 {
        Seq::empty()
    } else {
        insert_sorted(s[0], sort_stale(s.skip(1)))
    }
}

/// The active units, in their given order.
pub open spec fn actives(s: Seq<SatkerV>) -> Seq<SatkerV>
    decreases s.len(),
{
    if s.len() == 0 {
        Seq::empty()
    } else {
        let pre = actives(s.drop_last());
        if s.last().is_active {
            pre.push(s.last())
        } else {
            pre
        }
    }
}

/// The identifying codes of a unit sequence.
pub open spec fn ids_of(s: Seq<SatkerV>) -> Seq<Seq<char>> {
    s.map_values(|u: SatkerV| u.kd_satker)
}

/// What the selector returns: up to `limit` active unit codes, by ascending
/// freshness rank, never-fetched units first.
pub open spec fn select_spec(units: Seq<SatkerV>, limit: int) -> Seq<Seq<char>> {
    let ordered = ids_of(sort_stale(actives(units)));
    if limit < ordered.len() {
        ordered.take(limit)
    } else {
        ordered
    }
}

pub proof fn lemma_insert_sorted_len(u: SatkerV, s: Seq<SatkerV>)
    ensures
        insert_sorted(u, s).len() == s.len() + 1,
    decreases s.len(),
{
    if s.len() > 0 && !(rank(u) <= rank(s[0])) {
        lemma_insert_sorted_len(u, s.skip(1));
    }
}

/// Inserting into a rank-sorted sequence keeps it rank-sorted.
pub proof fn lemma_insert_sorted_sorted(u: SatkerV, s: Seq<SatkerV>)
    requires
        sorted_by_rank(s),
    ensures
        sorted_by_rank(insert_sorted(u, s)),
    decreases s.len(),
{
    if s.len() == 0 {
    } else if rank(u) <= rank(s[0]) {
        assert forall|i: int, j: int|
            0 <= i <= j < insert_sorted(u, s).len() implies rank(insert_sorted(u, s)[i]) <= rank(
            insert_sorted(u, s)[j],
        ) by {
            if i > 0 {
                assert(insert_sorted(u, s)[i] == s[i - 1]);
                assert(insert_sorted(u, s)[j] == s[j - 1]);
            } else if j > 0 {
                assert(insert_sorted(u, s)[j] == s[j - 1]);
                assert(rank(s[0]) <= rank(s[j - 1]));
            }
        }
    } else {
        assert(sorted_by_rank(s.skip(1))) by {
            assert(forall|i: int|
                0 <= i < s.skip(1).len() ==> rank(#[trigger] s.skip(1)[i]) == rank(s[i + 1]));
        }
        lemma_insert_sorted_sorted(u, s.skip(1));
        lemma_insert_sorted_len(u, s.skip(1));
        let t = insert_sorted(u, s.skip(1));
        let whole = seq![s[0]] + t;
        assert forall|i: int, j: int| 0 <= i <= j < whole.len() implies rank(whole[i]) <= rank(
            whole[j],
        ) by {
            lemma_insert_sorted_contains_all(u, s.skip(1));
            if i == 0 && j > 0 {
                assert(whole[j] == t[j - 1]);
                assert(t.contains(t[j - 1]));
                if t[j - 1] == u {
                    assert(rank(s[0]) < rank(u));
                } else {
                    assert(s.skip(1).contains(t[j - 1]));
                    let w = choose|w: int| 0 <= w < s.skip(1).len() && s.skip(1)[w] == t[j - 1];
                    assert(rank(s[0]) <= rank(s[w + 1]));
                }
            } else if i > 0 {
                assert(whole[i] == t[i - 1]);
                assert(whole[j] == t[j - 1]);
            }
        }
    }
}

/// Membership in an insertion: the inserted unit and the old elements, and
/// nothing else.
pub proof fn lemma_insert_sorted_contains_all(u: SatkerV, s: Seq<SatkerV>)
    ensures
        forall|x: SatkerV| #[trigger]
            insert_sorted(u, s).contains(x) <==> (x == u || s.contains(x)),
    decreases s.len(),
{
    if s.len() == 0 {
        assert forall|x: SatkerV| #[trigger] insert_sorted(u, s).contains(x) implies (x == u
            || s.contains(x)) by {}
        assert(insert_sorted(u, s)[0] == u);
    } else if rank(u) <= rank(s[0]) {
        assert forall|x: SatkerV| (x == u || s.contains(x)) implies #[trigger] insert_sorted(
            u,
            s,
        ).contains(x) by {
            let w = seq![u] + s;
            if x == u {
                assert(w[0] == x);
            } else {
                let k = choose|k: int| 0 <= k < s.len() && s[k] == x;
                assert(w[k + 1] == x);
            }
        }
        assert forall|x: SatkerV| #[trigger] insert_sorted(u, s).contains(x) implies (x == u
            || s.contains(x)) by {
            let w = seq![u] + s;
            let k = choose|k: int| 0 <= k < w.len() && w[k] == x;
            if k > 0 {
                assert(s[k - 1] == x);
            }
        }
    } else {
        lemma_insert_sorted_contains_all(u, s.skip(1));
        let t = insert_sorted(u, s.skip(1));
        let w = seq![s[0]] + t;
        assert forall|x: SatkerV| #[trigger] w.contains(x) implies (x == u || s.contains(x)) by {
            let k = choose|k: int| 0 <= k < w.len() && w[k] == x;
            if k == 0 {
                assert(s[0] == x);
            } else {
                assert(t[k - 1] == x);
                assert(t.contains(t[k - 1]));
                if x != u {
                    let m = choose|m: int| 0 <= m < s.skip(1).len() && s.skip(1)[m] == x;
                    assert(s[m + 1] == x);
                }
            }
        }
        assert forall|x: SatkerV| (x == u || s.contains(x)) implies #[trigger] w.contains(x) by {
            if x == u {
                assert(t.contains(u));
                let m = choose|m: int| 0 <= m < t.len() && t[m] == u;
                assert(w[m + 1] == x);
            } else {
                let k = choose|k: int| 0 <= k < s.len() && s[k] == x;
                if k == 0 {
                    assert(w[0] == x);
                } else {
                    assert(s.skip(1)[k - 1] == x);
                    assert(s.skip(1).contains(x));
                    assert(t.contains(x));
                    let m = choose|m: int| 0 <= m < t.len() && t[m] == x;
                    assert(w[m + 1] == x);
                }
            }
        }
    }
}

/// Sorting keeps exactly the given units.
pub proof fn lemma_sort_stale_contains(s: Seq<SatkerV>)
    ensures
        forall|x: SatkerV| #[trigger] sort_stale(s).contains(x) <==> s.contains(x),
        sort_stale(s).len() == s.len(),
    decreases s.len(),
{
    if s.len() == 0 {
    } else {
        lemma_sort_stale_contains(s.skip(1));
        lemma_insert_sorted_contains_all(s[0], sort_stale(s.skip(1)));
        lemma_insert_sorted_len(s[0], sort_stale(s.skip(1)));
        assert forall|x: SatkerV| #[trigger] sort_stale(s).contains(x) implies s.contains(x) by {
            if x == s[0] {
            } else {
                assert(s.skip(1).contains(x));
                let m = choose|m: int| 0 <= m < s.skip(1).len() && s.skip(1)[m] == x;
                assert(s[m + 1] == x);
            }
        }
        assert forall|x: SatkerV| s.contains(x) implies #[trigger] sort_stale(s).contains(x) by {
            let k = choose|k: int| 0 <= k < s.len() && s[k] == x;
            if k > 0 {
                assert(s.skip(1)[k - 1] == x);
                assert(s.skip(1).contains(x));
            }
        }
    }
}

/// The sorted sequence is rank-sorted.
pub proof fn lemma_sort_stale_sorted(s: Seq<SatkerV>)
    ensures
        sorted_by_rank(sort_stale(s)),
    decreases s.len(),
{
    if s.len() > 0 {
        lemma_sort_stale_sorted(s.skip(1));
        lemma_insert_sorted_sorted(s[0], sort_stale(s.skip(1)));
    }
}

/// The active units are exactly the members that are active.
pub proof fn lemma_actives_contains(s: Seq<SatkerV>)
    ensures
        forall|x: SatkerV| #[trigger] actives(s).contains(x) <==> (s.contains(x) && x.is_active),
    decreases s.len(),
{
    if s.len() == 0 {
    } else {
        lemma_actives_contains(s.drop_last());
        assert forall|x: SatkerV| #[trigger] actives(s).contains(x) implies (s.contains(x)
            && x.is_active) by {
            if s.last().is_active && x == s.last() {
                assert(s[s.len() - 1] == x);
            } else {
                if actives(s.drop_last()).contains(x) {
                    assert(s.drop_last().contains(x));
                    let k = choose|k: int| 0 <= k < s.drop_last().len() && s.drop_last()[k] == x;
                    assert(s[k] == x);
                } else {
                    assert(s.last().is_active);
                    let t = actives(s.drop_last()).push(s.last());
                    let k = choose|k: int| 0 <= k < t.len() && t[k] == x;
                    assert(k == t.len() - 1 || actives(s.drop_last()).contains(x));
                }
            }
        }
        assert forall|x: SatkerV| (s.contains(x) && x.is_active) implies #[trigger] actives(
            s,
        ).contains(x) by {
            let k = choose|k: int| 0 <= k < s.len() && s[k] == x;
            if k < s.len() - 1 {
                assert(s.drop_last()[k] == x);
                assert(s.drop_last().contains(x));
                assert(actives(s.drop_last()).contains(x));
                let t = actives(s.drop_last());
                let m = choose|m: int| 0 <= m < t.len() && t[m] == x;
                if s.last().is_active {
                    assert(t.push(s.last())[m] == x);
                    assert(actives(s) == t.push(s.last()));
                } else {
                    assert(actives(s) == t);
                }
            } else {
                assert(x == s.last());
                assert(actives(s.drop_last()).push(s.last()).last() == x);
            }
        }
    }
}

/// Rank comparison on units.
pub fn rank_le(a: &Satker, b: &Satker) -> (r: bool)
    ensures
        r == (rank(a@) <= rank(b@)),
{
    match (&a.last_fetch_date, &b.last_fetch_date) {
        (Option::None, _) => true,
        (Option::Some(_), Option::None) => false,
        (Option::Some(x), Option::Some(y)) => *x <= *y,
    }
}

/// A copy of a unit with the same view.
pub fn copy_satker(u: &Satker) -> (r: Satker)
    ensures
        r@ == u@,
{
    Satker {
        kd_satker: u.kd_satker.clone(),
        is_active: u.is_active,
        last_fetch_date: u.last_fetch_date,
    }
}

/// `insert_sorted` written as a split at the insertion point.
proof fn lemma_insert_sorted_at(u: SatkerV, s: Seq<SatkerV>, j: int)
    requires
        0 <= j <= s.len(),
        forall|k: int| 0 <= k < j ==> rank(#[trigger] s[k]) < rank(u),
        j < s.len() ==> rank(u) <= rank(s[j]),
    ensures
        insert_sorted(u, s) == s.take(j) + seq![u] + s.skip(j),
    decreases j,
{
    if j == 0 {
        if s.len() == 0 {
            assert(insert_sorted(u, s) =~= s.take(0) + seq![u] + s.skip(0));
        } else {
            assert(insert_sorted(u, s) =~= s.take(0) + seq![u] + s.skip(0));
        }
    } else {
        assert(rank(s[0]) < rank(u));
        assert(forall|k: int| 0 <= k < j - 1 ==> rank(#[trigger] s.skip(1)[k]) == rank(s[k + 1]));
        assert(j - 1 < s.skip(1).len() ==> rank(u) <= rank(s.skip(1)[j - 1]));
        lemma_insert_sorted_at(u, s.skip(1), j - 1);
        assert(seq![s[0]] + (s.skip(1).take(j - 1) + seq![u] + s.skip(1).skip(j - 1)) =~= s.take(j)
            + seq![u] + s.skip(j));
    }
}

/// The insertion point of a unit in a rank-sorted vector: the first position
/// whose element ranks at or above the unit.
fn find_insert_pos(v: &Vec<Satker>, u: &Satker) -> (j: usize)
    ensures
        0 <= j <= v.len(),
        forall|k: int| 0 <= k < j ==> rank(#[trigger] v.deep_view()[k]) < rank(u@),
        j < v.len() ==> rank(u@) <= rank(v.deep_view()[j as int]),
{
    let mut j: usize = 0;
    while j < v.len()
        invariant
            0 <= j <= v.len(),
            forall|k: int| 0 <= k < j ==> rank(#[trigger] v.deep_view()[k]) < rank(u@),
        decreases v.len() - j,
    {
        if rank_le(u, &v[j]) {
            return j;
        }
        j = j + 1;
    }
    j
}

/// Inserts a unit into a rank-sorted vector at its insertion point.
pub fn insert_by_rank(v: Vec<Satker>, u: Satker) -> (out: Vec<Satker>)
    ensures
        out.deep_view() == insert_sorted(u@, v.deep_view()),
{
    let j = find_insert_pos(&v, &u);
    proof {
        lemma_insert_sorted_at(u@, v.deep_view(), j as int);
    }
    let ghost vd = v.deep_view();
    let ghost uv = u@;
    let mut out = v;
    out.insert(j, u);
    proof {
        assert(out.deep_view() =~= vd.take(j as int) + seq![uv] + vd.skip(j as int));
    }
    out
}

/// Sorts units by ascending freshness rank.
pub fn sort_by_staleness(units: &Vec<Satker>) -> (out: Vec<Satker>)
    ensures
        out.deep_view() == sort_stale(units.deep_view()),
{
    let mut acc: Vec<Satker> = Vec::new();
    let mut i: usize = units.len();
    while i > 0
        invariant
            0 <= i <= units.len(),
            acc.deep_view() == sort_stale(units.deep_view().skip(i as int)),
        decreases i,
    {
        i = i - 1;
        proof {
            assert(units.deep_view().skip(i as int).skip(1) =~= units.deep_view().skip(
                i as int + 1,
            ));
            assert(units.deep_view().skip(i as int)[0] == units.deep_view()[i as int]);
        }
        acc = insert_by_rank(acc, copy_satker(&units[i]));
    }
    proof {
        assert(units.deep_view().skip(0) =~= units.deep_view());
    }
    acc
}

/// The active units of a vector, in order.
pub fn filter_active(units: &Vec<Satker>) -> (out: Vec<Satker>)
    ensures
        out.deep_view() == actives(units.deep_view()),
{
    let mut out: Vec<Satker> = Vec::new();
    let mut i: usize = 0;
    while i < units.len()
        invariant
            0 <= i <= units.len(),
            out.deep_view() == actives(units.deep_view().take(i as int)),
        decreases units.len() - i,
    {
        proof {
            assert(units.deep_view().take(i as int + 1).drop_last() =~= units.deep_view().take(
                i as int,
            ));
            assert(units.deep_view().take(i as int + 1).last() == units.deep_view()[i as int]);
        }
        if units[i].is_active {
            out.push(copy_satker(&units[i]));
        }
        i = i + 1;
    }
    proof {
        assert(units.deep_view().take(units.len() as int) =~= units.deep_view());
    }
    out
}

} // verus!
