//! The laws the pipeline keeps, proved over the spec-level model: repeated
//! upserts of one canonical record converge, and the selector puts
//! never-fetched units before fetched ones.

use vstd::prelude::*;

use crate::models::RekeningV;
use crate::satker::{
    actives, ids_of, lemma_actives_contains, lemma_sort_stale_contains, lemma_sort_stale_sorted,
    rank, select_spec, sort_stale, SatkerV,
};
use crate::store::{
    find_row, inserted_row, lemma_find_row, lemma_find_row_first, merged_row, rows_wf, upsert_rows,
    StoredRowV,
};

verus! {

/// Two rows carry the same business fields: everything the upsert writes
/// from the canonical record or as a fixed default.
pub open spec fn same_business_fields(a: StoredRowV, b: StoredRowV) -> bool {
    &&& a.no_rekening == b.no_rekening
    &&& a.nama_bank == b.nama_bank
    &&& a.nama_rek == b.nama_rek
    &&& a.no_izin == b.no_izin
    &&& a.tgl_izin == b.tgl_izin
    &&& a.owner == b.owner
    &&& a.kode_unit_teknis == b.kode_unit_teknis
    &&& a.desc_status_rekening == b.desc_status_rekening
    &&& a.status_rekening == b.status_rekening
    &&& a.mata_uang == b.mata_uang
}

/// Applying the same canonical record twice yields one stored row for its
/// account number: the second application updates the same row in place,
/// leaves every other row alone, keeps the business fields identical, and
/// raises the version by exactly one more (below the machine limit of the
/// counter).
pub proof fn lemma_upsert_idempotent(rows: Seq<StoredRowV>, r: RekeningV) -> (i: int)
    requires
        rows_wf(rows),
    ensures
        ({
            let once = upsert_rows(rows, r);
            let twice = upsert_rows(once, r);
            &&& rows_wf(once)
            &&& rows_wf(twice)
            &&& 0 <= i < once.len()
            &&& once[i].no_rekening == r.no_rekening
            &&& find_row(once, r.no_rekening) == i
            &&& find_row(twice, r.no_rekening) == i
            &&& twice.len() == once.len()
            &&& twice[i] == merged_row(once[i], r)
            &&& same_business_fields(twice[i], once[i])
            &&& once[i].version < u64::MAX ==> twice[i].version == once[i].version + 1
            &&& forall|j: int| 0 <= j < once.len() && j != i ==> twice[j] == #[trigger] once[j]
        }),
{
    lemma_find_row(rows, r.no_rekening);
    crate::store::lemma_upsert_rows_wf(rows, r);
    crate::store::lemma_upsert_rows_wf(upsert_rows(rows, r), r);
    let i0 = find_row(rows, r.no_rekening);
    let once = upsert_rows(rows, r);
    let i: int = if i0 >= 0 {
        i0
    } else {
        rows.len() as int
    };
    if i0 >= 0 {
        assert(once == rows.update(i0, merged_row(rows[i0], r)));
        assert(once[i].no_rekening == r.no_rekening);
        assert(forall|j: int| 0 <= j < i ==> (#[trigger] once[j]).no_rekening != r.no_rekening);
        lemma_find_row_first(once, r.no_rekening, i);
    } else {
        assert(once == rows.push(inserted_row(r)));
        assert(once[i].no_rekening == r.no_rekening);
        assert(forall|j: int| 0 <= j < i ==> (#[trigger] once[j]).no_rekening != r.no_rekening);
        lemma_find_row_first(once, r.no_rekening, i);
    }
    let twice = upsert_rows(once, r);
    assert(twice == once.update(i, merged_row(once[i], r)));
    assert(forall|j: int| 0 <= j < i ==> (#[trigger] twice[j]).no_rekening != r.no_rekening);
    lemma_find_row_first(twice, r.no_rekening, i);
    i
}

/// The active units are never more numerous than all units.
proof fn lemma_actives_len(s: Seq<SatkerV>)
    ensures
        actives(s).len() <= s.len(),
    decreases s.len(),
{
    if s.len() > 0 {
        lemma_actives_len(s.drop_last());
    }
}

/// Among the selected unit codes, a never-fetched active unit comes before
/// any fetched active unit, when the limit admits all units: the selector
/// starves nobody and puts the stalest work first.
pub proof fn lemma_selector_prefers_unfetched(
    units: Seq<SatkerV>,
    a: SatkerV,
    b: SatkerV,
    limit: int,
) -> (pq: (int, int))
    requires
        units.contains(a),
        units.contains(b),
        a.is_active,
        b.is_active,
        a.last_fetch_date is Some,
        b.last_fetch_date is None,
        limit >= units.len(),
    ensures
        0 <= pq.0 < pq.1 < select_spec(units, limit).len(),
        select_spec(units, limit)[pq.0] == b.kd_satker,
        select_spec(units, limit)[pq.1] == a.kd_satker,
{
    let act = actives(units);
    let sorted = sort_stale(act);
    lemma_actives_contains(units);
    lemma_actives_len(units);
    lemma_sort_stale_contains(act);
    lemma_sort_stale_sorted(act);
    assert(sorted.contains(a));
    assert(sorted.contains(b));
    let q = choose|q: int| 0 <= q < sorted.len() && sorted[q] == a;
    let p = choose|p: int| 0 <= p < sorted.len() && sorted[p] == b;
    assert(rank(b) == -1);
    assert(rank(a) >= 0);
    assert(p != q);
    if q < p {
        assert(rank(sorted[q]) <= rank(sorted[p]));
        assert(false);
    }
    assert(select_spec(units, limit) == ids_of(sorted));
    assert(ids_of(sorted)[p] == b.kd_satker);
    assert(ids_of(sorted)[q] == a.kd_satker);
    (p, q)
}

} // verus!
