//! The store model: stored account rows keyed by account number with
//! merge-on-key (upsert) semantics, and the work-unit table with its
//! freshness timestamps and staleness-ordered selection.

use vstd::prelude::*;

use crate::models::{Rekening, RekeningV};
use crate::satker::{
    actives, clock_ok, filter_active, ids_of, rank, select_spec, sort_by_staleness, sort_stale,
    Satker, SatkerV,
};

verus! {

/// A stored account row. Owner, technical-unit, status and currency columns
/// are written as fixed defaults, not from the fetched payload: upstream does
/// not supply trustworthy values for them.
pub struct StoredRow {
    pub kode: String,
    pub kode_satker: String,
    pub nama_bank: String,
    pub nama_rek: String,
    pub no_izin: String,
    pub no_rekening: String,
    pub tgl_izin: String,
    pub owner: String,
    pub kode_unit_teknis: String,
    pub desc_status_rekening: String,
    pub status_rekening: i32,
    pub mata_uang: String,
    pub created_by: String,
    pub modified_by: String,
    pub version: u64,
    pub deleted: u32,
}

/// Mathematical view of a stored row.
#[verifier::ext_equal]
pub ghost struct StoredRowV {
    pub kode: Seq<char>,
    pub kode_satker: Seq<char>,
    pub nama_bank: Seq<char>,
    pub nama_rek: Seq<char>,
    pub no_izin: Seq<char>,
    pub no_rekening: Seq<char>,
    pub tgl_izin: Seq<char>,
    pub owner: Seq<char>,
    pub kode_unit_teknis: Seq<char>,
    pub desc_status_rekening: Seq<char>,
    pub status_rekening: i32,
    pub mata_uang: Seq<char>,
    pub created_by: Seq<char>,
    pub modified_by: Seq<char>,
    pub version: u64,
    pub deleted: u32,
}

impl View for StoredRow {
    type V = StoredRowV;

    open spec fn view(&self) -> StoredRowV {
        StoredRowV {
            kode: self.kode@,
            kode_satker: self.kode_satker@,
            nama_bank: self.nama_bank@,
            nama_rek: self.nama_rek@,
            no_izin: self.no_izin@,
            no_rekening: self.no_rekening@,
            tgl_izin: self.tgl_izin@,
            owner: self.owner@,
            kode_unit_teknis: self.kode_unit_teknis@,
            desc_status_rekening: self.desc_status_rekening@,
            status_rekening: self.status_rekening,
            mata_uang: self.mata_uang@,
            created_by: self.created_by@,
            modified_by: self.modified_by@,
            version: self.version,
            deleted: self.deleted,
        }
    }
}

impl DeepView for StoredRow {
    type V = StoredRowV;

    open spec fn deep_view(&self) -> StoredRowV {
        self.view()
    }
}

/// The store: account rows and work units. Stands for the two relational
/// tables the pipeline touches; rows are unique by account number.
pub struct Store {
    pub rows: Vec<StoredRow>,
    pub units: Vec<Satker>,
}

/// Mathematical view of the store.
#[verifier::ext_equal]
pub ghost struct StoreV {
    pub rows: Seq<StoredRowV>,
    pub units: Seq<SatkerV>,
}

impl View for Store {
    type V = StoreV;

    open spec fn view(&self) -> StoreV {
        StoreV { rows: self.rows.deep_view(), units: self.units.deep_view() }
    }
}

impl Store {
    /// Well-formed: account numbers are unique, the merge key.
    pub open spec fn wf(&self) -> bool {
        rows_wf(self@.rows)
    }

    /// An empty store with the given work units.
    pub fn new(units: Vec<Satker>) -> (s: Store)
        ensures
            s@.rows == Seq::<StoredRowV>::empty(),
            s@.units == units.deep_view(),
            s.wf(),
    {
        let rows: Vec<StoredRow> = Vec::new();
        proof {
            assert(rows.deep_view() =~= Seq::<StoredRowV>::empty());
        }
        Store { rows, units }
    }
}

/// Account numbers are pairwise distinct.
pub open spec fn rows_wf(rows: Seq<StoredRowV>) -> bool {
    forall|i: int, j: int|
        0 <= i < j < rows.len() ==> (#[trigger] rows[i]).no_rekening != (
        #[trigger] rows[j]).no_rekening
}

/// The index of the row keyed by `k`, or `-1` when no row has that key.
pub open spec fn find_row(rows: Seq<StoredRowV>, k: Seq<char>) -> int
    decreases rows.len(),
{
    if rows.len() == 0 {
        -1
    } else if rows[0].no_rekening == k {
        0
    } else {
        let r = find_row(rows.skip(1), k);
        if r == -1 {
            -1
        } else {
            r + 1
        }
    }
}

/// What `find_row` returns: the first matching index, or `-1` when no row
/// matches.
pub proof fn lemma_find_row(rows: Seq<StoredRowV>, k: Seq<char>)
    ensures
        find_row(rows, k) >= -1,
        find_row(rows, k) == -1 ==> forall|i: int|
            0 <= i < rows.len() ==> (#[trigger] rows[i]).no_rekening != k,
        find_row(rows, k) >= 0 ==> find_row(rows, k) < rows.len() && rows[find_row(
            rows,
            k,
        )].no_rekening == k && forall|i: int|
            0 <= i < find_row(rows, k) ==> (#[trigger] rows[i]).no_rekening != k,
    decreases rows.len(),
{
    if rows.len() == 0 {
    } else if rows[0].no_rekening == k {
    } else {
        lemma_find_row(rows.skip(1), k);
        assert(forall|i: int|
            1 <= i < rows.len() ==> (#[trigger] rows[i]).no_rekening == rows.skip(1)[i
                - 1].no_rekening);
    }
}

/// The constants stamped on every written row.
pub open spec fn default_owner() -> Seq<char> {
    "1"@
}

pub open spec fn default_unit_teknis() -> Seq<char> {
    Seq::<char>::empty()
}

pub open spec fn default_mata_uang() -> Seq<char> {
    "IDR"@
}

pub open spec fn actor_system() -> Seq<char> {
    "SYSTEM"@
}

/// The matched-row update: business fields from the canonical record, fixed
/// defaults re-stamped, modifier metadata set, version incremented (the
/// increment stops at the machine limit). Key, kode, owning unit and creation
/// metadata stay.
pub open spec fn merged_row(row: StoredRowV, r: RekeningV) -> StoredRowV {
    StoredRowV {
        kode: row.kode,
        kode_satker: row.kode_satker,
        nama_bank: r.nama_bank,
        nama_rek: r.nama_rekening,
        no_izin: r.no_izin,
        no_rekening: row.no_rekening,
        tgl_izin: r.tgl_izin,
        owner: default_owner(),
        kode_unit_teknis: default_unit_teknis(),
        desc_status_rekening: r.desc_status_rekening,
        status_rekening: 0,
        mata_uang: default_mata_uang(),
        created_by: row.created_by,
        modified_by: actor_system(),
        version: if row.version < u64::MAX {
            (row.version + 1) as u64
        } else {
            row.version
        },
        deleted: row.deleted,
    }
}

/// The new row inserted for an unmatched canonical record: version one, fixed
/// defaults, creation metadata stamped.
pub open spec fn inserted_row(r: RekeningV) -> StoredRowV {
    StoredRowV {
        kode: r.kdjenis,
        kode_satker: r.kd_satker,
        nama_bank: r.nama_bank,
        nama_rek: r.nama_rekening,
        no_izin: r.no_izin,
        no_rekening: r.no_rekening,
        tgl_izin: r.tgl_izin,
        owner: default_owner(),
        kode_unit_teknis: default_unit_teknis(),
        desc_status_rekening: r.desc_status_rekening,
        status_rekening: 0,
        mata_uang: default_mata_uang(),
        created_by: actor_system(),
        modified_by: Seq::<char>::empty(),
        version: 1,
        deleted: 0,
    }
}

/// Merge-on-key: update the row with this account number, or append a new
/// one.
pub open spec fn upsert_rows(rows: Seq<StoredRowV>, r: RekeningV) -> Seq<StoredRowV> {
    let i = find_row(rows, r.no_rekening);
    if i >= 0 {
        rows.update(i, merged_row(rows[i], r))
    } else {
        rows.push(inserted_row(r))
    }
}

/// Upserting keeps account numbers unique.
pub proof fn lemma_upsert_rows_wf(rows: Seq<StoredRowV>, r: RekeningV)
    requires
        rows_wf(rows),
    ensures
        rows_wf(upsert_rows(rows, r)),
        upsert_rows(rows, r).len() == if find_row(rows, r.no_rekening) >= 0 {
            rows.len() as int
        } else {
            rows.len() + 1 as int
        },
{
    lemma_find_row(rows, r.no_rekening);
    let i = find_row(rows, r.no_rekening);
    if i >= 0 {
        let out = rows.update(i, merged_row(rows[i], r));
        assert(forall|j: int|
            0 <= j < out.len() ==> (#[trigger] out[j]).no_rekening == rows[j].no_rekening);
    } else {
        let out = rows.push(inserted_row(r));
        assert(forall|j: int| 0 <= j < rows.len() ==> out[j] == rows[j]);
        assert(out.last().no_rekening == r.no_rekening);
    }
}

/// Applies a sequence of canonical records in order.
pub open spec fn apply_all(rows: Seq<StoredRowV>, recs: Seq<RekeningV>) -> Seq<StoredRowV>
    decreases recs.len(),
{
    if recs.len() == 0 {
        rows
    } else {
        apply_all(upsert_rows(rows, recs[0]), recs.skip(1))
    }
}

/// Every unit with the given code is stamped with the new fetch time; every
/// other unit is untouched.
pub open spec fn advance_units(units: Seq<SatkerV>, kd: Seq<char>, now: u64) -> Seq<SatkerV> {
    units.map_values(
        |u: SatkerV|
            if u.kd_satker == kd {
                SatkerV { kd_satker: u.kd_satker, is_active: u.is_active, last_fetch_date: Option::Some(now) }
            } else {
                u
            },
    )
}

impl Store {
    /// Applies one canonical record with merge-on-key semantics, keyed by
    /// account number: an existing row is updated and its version counter
    /// incremented, a missing one is inserted at version one with the fixed
    /// default columns. Applying the same record again converges: same key,
    /// same business fields, one more version.
    pub fn insert_rekening(&mut self, rekening: &Rekening)
        requires
            old(self).wf(),
        ensures
            final(self)@.rows == upsert_rows(old(self)@.rows, rekening@),
            final(self)@.units == old(self)@.units,
            final(self).wf(),
    {
        proof {
            lemma_find_row(self@.rows, rekening@.no_rekening);
            lemma_upsert_rows_wf(self@.rows, rekening@);
        }
        let ghost rows0 = self@.rows;
        let mut i: usize = 0;
        while i < self.rows.len()
            invariant
                0 <= i <= self.rows.len(),
                self@.rows == rows0,
                rows0 == old(self)@.rows,
                rows_wf(rows0),
                self@.units == old(self)@.units,
                forall|j: int| 0 <= j < i ==> (#[trigger] rows0[j]).no_rekening != rekening@.no_rekening,
            decreases self.rows.len() - i,
        {
            if self.rows[i].no_rekening == rekening.no_rekening {
                proof {
                    lemma_find_row_first(rows0, rekening@.no_rekening, i as int);
                    lemma_upsert_rows_wf(rows0, rekening@);
                }
                let updated = StoredRow {
                    kode: self.rows[i].kode.clone(),
                    kode_satker: self.rows[i].kode_satker.clone(),
                    nama_bank: rekening.nama_bank.clone(),
                    nama_rek: rekening.nama_rekening.clone(),
                    no_izin: rekening.no_izin.clone(),
                    no_rekening: self.rows[i].no_rekening.clone(),
                    tgl_izin: rekening.tgl_izin.clone(),
                    owner: "1".to_owned(),
                    kode_unit_teknis: String::new(),
                    desc_status_rekening: rekening.desc_status_rekening.clone(),
                    status_rekening: 0,
                    mata_uang: "IDR".to_owned(),
                    created_by: self.rows[i].created_by.clone(),
                    modified_by: "SYSTEM".to_owned(),
                    version: if self.rows[i].version < u64::MAX {
                        self.rows[i].version + 1
                    } else {
                        self.rows[i].version
                    },
                    deleted: self.rows[i].deleted,
                };
                self.rows.set(i, updated);
                proof {
                    assert(self@.rows =~~= upsert_rows(rows0, rekening@));
                }
                return ;
            }
            i = i + 1;
        }
        proof {
            assert(find_row(rows0, rekening@.no_rekening) == -1) by {
                lemma_find_row_none(rows0, rekening@.no_rekening);
            }
        }
        let fresh_row = StoredRow {
            kode: rekening.kdjenis.clone(),
            kode_satker: rekening.kd_satker.clone(),
            nama_bank: rekening.nama_bank.clone(),
            nama_rek: rekening.nama_rekening.clone(),
            no_izin: rekening.no_izin.clone(),
            no_rekening: rekening.no_rekening.clone(),
            tgl_izin: rekening.tgl_izin.clone(),
            owner: "1".to_owned(),
            kode_unit_teknis: String::new(),
            desc_status_rekening: rekening.desc_status_rekening.clone(),
            status_rekening: 0,
            mata_uang: "IDR".to_owned(),
            created_by: "SYSTEM".to_owned(),
            modified_by: String::new(),
            version: 1,
            deleted: 0,
        };
        self.rows.push(fresh_row);
        proof {
            assert(self@.rows =~~= upsert_rows(rows0, rekening@));
        }
    }

    /// Up to `limit` active unit codes, least recently refreshed first,
    /// never-fetched units first of all. Read-only.
    pub fn get_active_satkers(&self, limit: usize) -> (out: Vec<String>)
        ensures
            out.deep_view() == select_spec(self@.units, limit as int),
    {
        let active = filter_active(&self.units);
        let ordered = sort_by_staleness(&active);
        let mut out: Vec<String> = Vec::new();
        let mut i: usize = 0;
        let n = if limit < ordered.len() {
            limit
        } else {
            ordered.len()
        };
        while i < n
            invariant
                0 <= i <= n,
                n <= ordered.len(),
                ordered.deep_view() == sort_stale(actives(self@.units)),
                out.deep_view() == ids_of(ordered.deep_view()).take(i as int),
            decreases n - i,
        {
            let ghost prev = out.deep_view();
            out.push(ordered[i].kd_satker.clone());
            proof {
                assert(out.deep_view() =~~= prev.push(ordered.deep_view()[i as int].kd_satker));
                assert(prev.push(ordered.deep_view()[i as int].kd_satker) =~~= ids_of(
                    ordered.deep_view(),
                ).take(i as int + 1));
            }
            i = i + 1;
        }
        proof {
            if limit as int >= ids_of(ordered.deep_view()).len() {
                assert(ids_of(ordered.deep_view()).take(n as int) =~~= ids_of(ordered.deep_view()));
            }
        }
        out
    }

    /// Stamps the unit's freshness timestamp with the given fetch time.
    /// Called only after a fully committed batch for that unit, with the
    /// current instant: freshness only advances forward.
    pub fn update_last_fetch_date(&mut self, kd_satker: &str, now: u64)
        requires
            old(self).wf(),
            clock_ok(old(self)@.units, now),
        ensures
            final(self)@.units == advance_units(old(self)@.units, kd_satker@, now),
            final(self)@.rows == old(self)@.rows,
            final(self).wf(),
            forall|j: int|
                0 <= j < old(self)@.units.len() ==> rank(#[trigger] final(self)@.units[j]) >= rank(
                    old(self)@.units[j],
                ),
    {
        let ghost units0 = self@.units;
        let mut i: usize = 0;
        while i < self.units.len()
            invariant
                0 <= i <= self.units.len(),
                self@.rows == old(self)@.rows,
                self@.units.len() == units0.len(),
                forall|j: int|
                    i <= j < units0.len() ==> self@.units[j] == #[trigger] units0[j],
                forall|j: int|
                    0 <= j < i ==> self@.units[j] =~~= #[trigger] advance_units(
                        units0,
                        kd_satker@,
                        now,
                    )[j],
            decreases self.units.len() - i,
        {
            if crate::text::str_eq(self.units[i].kd_satker.as_str(), kd_satker) {
                let stamped = Satker {
                    kd_satker: self.units[i].kd_satker.clone(),
                    is_active: self.units[i].is_active,
                    last_fetch_date: Option::Some(now),
                };
                self.units.set(i, stamped);
            }
            i = i + 1;
        }
        proof {
            assert(self@.units =~~= advance_units(units0, kd_satker@, now));
            assert forall|j: int| 0 <= j < old(self)@.units.len() implies rank(
                #[trigger] self@.units[j],
            ) >= rank(old(self)@.units[j]) by {
                assert(self@.units[j] == advance_units(units0, kd_satker@, now)[j]);
            }
        }
    }

    /// How many rows the store holds.
    pub fn get_rekening_count(&self) -> (n: usize)
        ensures
            n == self@.rows.len(),
    {
        self.rows.len()
    }

    /// Whether a row with this account number is stored.
    pub fn verify_rekening(&self, norek: &str) -> (present: bool)
        ensures
            present == (find_row(self@.rows, norek@) >= 0),
    {
        proof {
            lemma_find_row(self@.rows, norek@);
        }
        let mut i: usize = 0;
        while i < self.rows.len()
            invariant
                0 <= i <= self.rows.len(),
                forall|j: int| 0 <= j < i ==> (#[trigger] self@.rows[j]).no_rekening != norek@,
            decreases self.rows.len() - i,
        {
            if crate::text::str_eq(self.rows[i].no_rekening.as_str(), norek) {
                proof {
                    lemma_find_row_first(self@.rows, norek@, i as int);
                }
                return true;
            }
            i = i + 1;
        }
        proof {
            lemma_find_row_none(self@.rows, norek@);
        }
        false
    }
}

/// When no row matches, `find_row` says so.
pub proof fn lemma_find_row_none(rows: Seq<StoredRowV>, k: Seq<char>)
    requires
        forall|i: int| 0 <= i < rows.len() ==> (#[trigger] rows[i]).no_rekening != k,
    ensures
        find_row(rows, k) == -1,
    decreases rows.len(),
{
    if rows.len() > 0 {
        assert(forall|i: int|
            0 <= i < rows.skip(1).len() ==> (#[trigger] rows.skip(1)[i]).no_rekening == rows[i
                + 1].no_rekening);
        lemma_find_row_none(rows.skip(1), k);
    }
}

/// When the first match is at `i`, `find_row` returns `i`.
pub proof fn lemma_find_row_first(rows: Seq<StoredRowV>, k: Seq<char>, i: int)
    requires
        0 <= i < rows.len(),
        rows[i].no_rekening == k,
        forall|j: int| 0 <= j < i ==> (#[trigger] rows[j]).no_rekening != k,
    ensures
        find_row(rows, k) == i,
    decreases i,
{
    if i == 0 {
    } else {
        assert(rows.skip(1)[i - 1] == rows[i]);
        assert(forall|j: int|
            0 <= j < i - 1 ==> (#[trigger] rows.skip(1)[j]).no_rekening == rows[j + 1].no_rekening);
        lemma_find_row_first(rows.skip(1), k, i - 1);
    }
}

} // verus!
