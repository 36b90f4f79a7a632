//! The transactional unit processor and the run loop, as functions from
//! state and events to the next state.
//!
//! Fetching and the storage transaction are outside work; what they yielded
//! comes in as events: the fetch outcome for a unit, and which storage apply
//! (if any) the store rejected. Given those, processing a unit is a pure
//! state transition, proved all-or-nothing per unit.

use vstd::prelude::*;

use crate::models::{normalize_records, normalize_seq, RekeningResponse, RekeningResponseV};
use crate::satker::{clock_ok, rank, select_spec, SatkerV};
use crate::store::{advance_units, apply_all, Store, StoreV};

verus! {

/// The outcome of fetching one unit's records: a transport or decode error,
/// or the decoded response envelope.
pub enum FetchResult {
    Error,
    Success(RekeningResponse),
}

impl View for FetchResult {
    type V = Option<RekeningResponseV>;

    open spec fn view(&self) -> Option<RekeningResponseV> {
        match self {
            FetchResult::Error => Option::None,
            FetchResult::Success(resp) => Option::Some(resp@),
        }
    }
}

/// The events of one unit's processing: its fetch outcome, and which apply
/// the storage rejected. `fault_at` counts the upserts of the unit's
/// transaction; a value at the record count means the commit itself failed,
/// a larger value or none means the store accepted everything.
pub struct UnitEvent {
    pub kd_satker: String,
    pub fetch: FetchResult,
    pub fault_at: Option<usize>,
}

/// Mathematical view of a unit's events.
#[verifier::ext_equal]
pub ghost struct UnitEventV {
    pub kd_satker: Seq<char>,
    pub fetch: Option<RekeningResponseV>,
    pub fault_at: Option<usize>,
}

impl View for UnitEvent {
    type V = UnitEventV;

    open spec fn view(&self) -> UnitEventV {
        UnitEventV { kd_satker: self.kd_satker@, fetch: self.fetch@, fault_at: self.fault_at }
    }
}

impl DeepView for UnitEvent {
    type V = UnitEventV;

    open spec fn deep_view(&self) -> UnitEventV {
        self.view()
    }
}

/// Whether the storage rejected one of `n` applies (or the commit after
/// them).
pub open spec fn fault_hits(fault: Option<usize>, n: int) -> bool {
    fault matches Option::Some(i) && i as int <= n
}

/// Whether a unit's transaction commits: the fetch succeeded, the envelope
/// signals success and carries records, at least one record survives
/// normalization, and the store rejected nothing.
pub open spec fn unit_commits(fetch: Option<RekeningResponseV>, fault: Option<usize>) -> bool {
    match fetch {
        Option::None => false,
        Option::Some(resp) => {
            let recs = normalize_seq(resp.data);
            &&& resp.success
            &&& resp.data.len() > 0
            &&& recs.len() > 0
            &&& !fault_hits(fault, recs.len() as int)
        },
    }
}

/// How many records the unit's transaction wrote: all the normalized ones on
/// commit, none otherwise.
pub open spec fn unit_count(fetch: Option<RekeningResponseV>, fault: Option<usize>) -> int {
    if unit_commits(fetch, fault) {
        normalize_seq(fetch->Some_0.data).len() as int
    } else {
        0
    }
}

/// The state after processing one unit: on commit, every normalized record
/// applied in order and the unit's freshness stamped; otherwise the state
/// unchanged.
pub open spec fn process_single_spec(
    st: StoreV,
    kd: Seq<char>,
    fetch: Option<RekeningResponseV>,
    fault: Option<usize>,
    now: u64,
) -> StoreV {
    if unit_commits(fetch, fault) {
        StoreV {
            rows: apply_all(st.rows, normalize_seq(fetch->Some_0.data)),
            units: advance_units(st.units, kd, now),
        }
    } else {
        st
    }
}

/// Processes one unit given its fetch outcome and the storage's verdicts.
///
/// All-or-nothing per unit: when the unit does not commit — fetch error,
/// failed or empty envelope, nothing surviving normalization, or a rejected
/// apply — the store is untouched and the freshness timestamp unchanged.
/// When it commits, every normalized record is applied and the unit's
/// freshness advances to `now`; freshness never moves backwards.
pub fn process_single_satker(
    store: &mut Store,
    kd_satker: &str,
    fetch: &FetchResult,
    fault_at: Option<usize>,
    now: u64,
) -> (r: (bool, usize))
    requires
        old(store).wf(),
        clock_ok(old(store)@.units, now),
    ensures
        final(store).wf(),
        r.0 == unit_commits(fetch@, fault_at),
        r.1 as int == unit_count(fetch@, fault_at),
        final(store)@ == process_single_spec(old(store)@, kd_satker@, fetch@, fault_at, now),
        !r.0 ==> final(store)@ == old(store)@,
        clock_ok(final(store)@.units, now),
        final(store)@.units.len() == old(store)@.units.len(),
        forall|j: int|
            0 <= j < old(store)@.units.len() ==> rank(#[trigger] final(store)@.units[j]) >= rank(
                old(store)@.units[j],
            ),
{
    match fetch {
        FetchResult::Error => (false, 0),
        FetchResult::Success(resp) => {
            if !resp.success || resp.data.len() == 0 {
                return (false, 0);
            }
            let recs = normalize_records(&resp.data);
            if recs.len() == 0 {
                return (false, 0);
            }
            if let Option::Some(i) = fault_at {
                if i <= recs.len() {
                    return (false, 0);
                }
            }
            let ghost rows0 = store@.rows;
            let ghost recsv = recs.deep_view();
            proof {
                assert(recsv.skip(0) =~= recsv);
            }
            let mut j: usize = 0;
            while j < recs.len()
                invariant
                    0 <= j <= recs.len(),
                    recsv == recs.deep_view(),
                    store.wf(),
                    store@.units == old(store)@.units,
                    apply_all(rows0, recsv) == apply_all(store@.rows, recsv.skip(j as int)),
                decreases recs.len() - j,
            {
                proof {
                    assert(recsv.skip(j as int)[0] == recsv[j as int]);
                    assert(recsv.skip(j as int).skip(1) =~= recsv.skip(j as int + 1));
                }
                store.insert_rekening(&recs[j]);
                j = j + 1;
            }
            proof {
                assert(recsv.skip(recs.len() as int) =~= Seq::<crate::models::RekeningV>::empty());
            }
            store.update_last_fetch_date(kd_satker, now);
            proof {
                assert(store@ =~~= process_single_spec(
                    old(store)@,
                    kd_satker@,
                    fetch@,
                    fault_at,
                    now,
                ));
                assert forall|k: int| 0 <= k < old(store)@.units.len() implies rank(
                    #[trigger] store@.units[k],
                ) >= rank(old(store)@.units[k]) && rank(store@.units[k]) <= now as int by {
                    assert(store@.units[k] == advance_units(
                        old(store)@.units,
                        kd_satker@,
                        now,
                    )[k]);
                }
            }
            (true, recs.len())
        },
    }
}

/// The fetch outcome and fault recorded for a unit: the first event bearing
/// its code, or a fetch error when no event names it.
pub open spec fn find_event(events: Seq<UnitEventV>, kd: Seq<char>) -> (
    Option<RekeningResponseV>,
    Option<usize>,
)
    decreases events.len(),
{
    if events.len() == 0 {
        (Option::None, Option::None)
    } else if events[0].kd_satker == kd {
        (events[0].fetch, events[0].fault_at)
    } else {
        find_event(events.skip(1), kd)
    }
}

/// When no event bears the code, the unit's fetch counts as failed.
proof fn lemma_find_event_none(events: Seq<UnitEventV>, kd: Seq<char>)
    requires
        forall|i: int| 0 <= i < events.len() ==> (#[trigger] events[i]).kd_satker != kd,
    ensures
        find_event(events, kd) == (Option::<RekeningResponseV>::None, Option::<usize>::None),
    decreases events.len(),
{
    if events.len() > 0 {
        assert(forall|i: int|
            0 <= i < events.skip(1).len() ==> (#[trigger] events.skip(1)[i]).kd_satker == events[i
                + 1].kd_satker);
        lemma_find_event_none(events.skip(1), kd);
    }
}

/// When the first event bearing the code sits at `i`, that event decides.
proof fn lemma_find_event_first(events: Seq<UnitEventV>, kd: Seq<char>, i: int)
    requires
        0 <= i < events.len(),
        events[i].kd_satker == kd,
        forall|j: int| 0 <= j < i ==> (#[trigger] events[j]).kd_satker != kd,
    ensures
        find_event(events, kd) == (events[i].fetch, events[i].fault_at),
    decreases i,
{
    if i > 0 {
        assert(events.skip(1)[i - 1] == events[i]);
        assert(forall|j: int|
            0 <= j < i - 1 ==> (#[trigger] events.skip(1)[j]).kd_satker == events[j
                + 1].kd_satker);
        lemma_find_event_first(events.skip(1), kd, i - 1);
    }
}

/// The position of the first event bearing the code.
fn find_event_pos(events: &Vec<UnitEvent>, kd: &str) -> (r: Option<usize>)
    ensures
        match r {
            Option::Some(k) => k < events.len() && find_event(events.deep_view(), kd@) == (
                events.deep_view()[k as int].fetch,
                events.deep_view()[k as int].fault_at,
            ),
            Option::None => find_event(events.deep_view(), kd@) == (
                Option::<RekeningResponseV>::None,
                Option::<usize>::None,
            ),
        },
{
    let mut i: usize = 0;
    while i < events.len()
        invariant
            0 <= i <= events.len(),
            forall|j: int| 0 <= j < i ==> (#[trigger] events.deep_view()[j]).kd_satker != kd@,
        decreases events.len() - i,
    {
        if crate::text::str_eq(events[i].kd_satker.as_str(), kd) {
            proof {
                lemma_find_event_first(events.deep_view(), kd@, i as int);
            }
            return Option::Some(i);
        }
        i = i + 1;
    }
    proof {
        lemma_find_event_none(events.deep_view(), kd@);
    }
    Option::None
}

/// Addition on counters that stops at the machine limit.
pub open spec fn sat_add(a: u64, b: u64) -> u64 {
    if a + b <= u64::MAX {
        (a + b) as u64
    } else {
        u64::MAX
    }
}

fn sat_add_u64(a: u64, b: u64) -> (r: u64)
    ensures
        r == sat_add(a, b),
{
    if a <= u64::MAX - b {
        a + b
    } else {
        u64::MAX
    }
}

/// The run from position `i` of the plan: each remaining unit processed once
/// against its recorded events, committed units and written records counted.
pub open spec fn run_from(
    st: StoreV,
    plan: Seq<Seq<char>>,
    events: Seq<UnitEventV>,
    now: u64,
    i: int,
    acc_units: u64,
    acc_recs: u64,
) -> (StoreV, u64, u64)
    decreases plan.len() - i,
{
    if i < 0 || i >= plan.len() {
        (st, acc_units, acc_recs)
    } else {
        let ev = find_event(events, plan[i]);
        let st2 = process_single_spec(st, plan[i], ev.0, ev.1, now);
        if unit_commits(ev.0, ev.1) {
            run_from(
                st2,
                plan,
                events,
                now,
                i + 1,
                sat_add(acc_units, 1),
                sat_add(acc_recs, unit_count(ev.0, ev.1) as u64),
            )
        } else {
            run_from(st2, plan, events, now, i + 1, acc_units, acc_recs)
        }
    }
}

/// One whole reconciliation run: every active unit, least recently refreshed
/// first, processed exactly once against its recorded events.
pub open spec fn run_spec(st: StoreV, events: Seq<UnitEventV>, now: u64) -> (StoreV, u64, u64) {
    run_from(st, select_spec(st.units, st.units.len() as int), events, now, 0, 0, 0)
}

/// Drives one reconciliation run to completion: selects every active unit,
/// least recently refreshed first, processes each exactly once against its
/// recorded events, and reports how many units committed and how many
/// records were written. Units whose processing fails are skipped, never
/// retried within the run, and left stale for the next invocation.
pub fn process_all_satkers(store: &mut Store, events: &Vec<UnitEvent>, now: u64) -> (totals: (
    u64,
    u64,
))
    requires
        old(store).wf(),
        clock_ok(old(store)@.units, now),
    ensures
        final(store).wf(),
        (final(store)@, totals.0, totals.1) == run_spec(old(store)@, events.deep_view(), now),
        final(store)@.units.len() == old(store)@.units.len(),
        forall|j: int|
            0 <= j < old(store)@.units.len() ==> rank(#[trigger] final(store)@.units[j]) >= rank(
                old(store)@.units[j],
            ),
{
    let plan = store.get_active_satkers(store.units.len());
    let ghost st0 = store@;
    let ghost planv = plan.deep_view();
    let mut done_units: u64 = 0;
    let mut done_recs: u64 = 0;
    let mut i: usize = 0;
    while i < plan.len()
        invariant
            0 <= i <= plan.len(),
            planv == plan.deep_view(),
            store.wf(),
            clock_ok(store@.units, now),
            store@.units.len() == st0.units.len(),
            forall|j: int|
                0 <= j < st0.units.len() ==> rank(#[trigger] store@.units[j]) >= rank(
                    st0.units[j],
                ),
            run_from(st0, planv, events.deep_view(), now, 0, 0, 0) == run_from(
                store@,
                planv,
                events.deep_view(),
                now,
                i as int,
                done_units,
                done_recs,
            ),
        decreases plan.len() - i,
    {
        let ghost st_before = store@;
        let (committed, written) = match find_event_pos(events, plan[i].as_str()) {
            Option::Some(k) => {
                let fault = events[k].fault_at;
                process_single_satker(store, plan[i].as_str(), &events[k].fetch, fault, now)
            },
            Option::None => {
                process_single_satker(store, plan[i].as_str(), &FetchResult::Error, Option::None, now)
            },
        };
        if committed {
            done_units = sat_add_u64(done_units, 1);
            done_recs = sat_add_u64(done_recs, written as u64);
        }
        i = i + 1;
    }
    (done_units, done_recs)
}

} // verus!
