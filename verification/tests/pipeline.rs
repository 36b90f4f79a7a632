use rekonrek::models::{Rekening, RekeningData, RekeningResponse};
use rekonrek::permit_date::parse_permit_date;
use rekonrek::processor::{process_all_satkers, process_single_satker, FetchResult, UnitEvent};
use rekonrek::satker::Satker;
use rekonrek::store::Store;

fn raw(norek: Option<&str>, kdsatker: Option<&str>, tglizin: Option<&str>) -> RekeningData {
    RekeningData {
        kdjenis: None,
        nmjenis: None,
        kdsatker: kdsatker.map(|s| s.to_string()),
        kdbank: None,
        kdjenbank: None,
        nmbank: None,
        nmcabang: None,
        nmrek: None,
        norek: norek.map(|s| s.to_string()),
        noizin: None,
        tglizin: tglizin.map(|s| s.to_string()),
        kdstatus: None,
        nmstatus: None,
    }
}

fn full_raw() -> RekeningData {
    RekeningData {
        kdjenis: Some("01".to_string()),
        nmjenis: Some("Giro".to_string()),
        kdsatker: Some("S1".to_string()),
        kdbank: Some("002".to_string()),
        kdjenbank: Some("BUMN".to_string()),
        nmbank: Some("Bank A".to_string()),
        nmcabang: Some("Pusat".to_string()),
        nmrek: Some("Operasional".to_string()),
        norek: Some("123".to_string()),
        noizin: Some("IZ-9".to_string()),
        tglizin: Some("2024-01-15T00:00:00.000000Z".to_string()),
        kdstatus: Some("1".to_string()),
        nmstatus: Some("Aktif".to_string()),
    }
}

fn unit(kd: &str, active: bool, last: Option<u64>) -> Satker {
    Satker {
        kd_satker: kd.to_string(),
        is_active: active,
        last_fetch_date: last,
    }
}

fn canonical(norek: &str) -> Rekening {
    Rekening {
        kdjenis: "01".to_string(),
        kd_satker: "S1".to_string(),
        nama_bank: "Bank A".to_string(),
        nama_rekening: "Operasional".to_string(),
        no_izin: "IZ-9".to_string(),
        no_rekening: norek.to_string(),
        tgl_izin: "2024-01-15".to_string(),
        desc_status_rekening: "Aktif".to_string(),
    }
}

fn envelope(success: bool, data: Vec<RekeningData>) -> RekeningResponse {
    let length = data.len() as i32;
    RekeningResponse {
        success,
        message: "ok".to_string(),
        code: "200".to_string(),
        data,
        length,
    }
}

#[test]
fn normalization_rejects_missing_norek() {
    let d = raw(None, Some("S1"), Some("2024-01-15T00:00:00.000000Z"));
    assert!(d.to_rekening().is_none());
}

#[test]
fn normalization_rejects_blank_norek() {
    let d = raw(Some("   "), Some("S1"), Some("2024-01-15T00:00:00.000000Z"));
    assert!(d.to_rekening().is_none());
    let e = raw(Some(""), Some("S1"), Some("2024-01-15T00:00:00.000000Z"));
    assert!(e.to_rekening().is_none());
    let f = raw(Some("\t\n "), Some("S1"), Some("2024-01-15T00:00:00.000000Z"));
    assert!(f.to_rekening().is_none());
}

#[test]
fn normalization_rejects_bad_date() {
    for bad in [
        "garbage",
        "2024-01-15",
        "2024-01-15T00:00:00Z",
        "2024-13-01T00:00:00.000000Z",
        "2024-00-10T00:00:00.000000Z",
        "2024-01-32T00:00:00.000000Z",
        "2023-02-29T00:00:00.000000Z",
        "2024-04-31T00:00:00.000000Z",
        "2024-01-15T24:00:00.000000Z",
        "2024-01-15T00:60:00.000000Z",
        "2024-01-15T00:00:60.000000Z",
        "2024-01-15T00:00:00.000000",
        "2024-01-15T00:00:00.Z",
        "2024/01/15T00:00:00.000000Z",
    ] {
        let d = raw(Some("123"), Some("S1"), Some(bad));
        assert!(d.to_rekening().is_none(), "accepted: {bad}");
    }
    let d = raw(Some("123"), Some("S1"), None);
    assert!(d.to_rekening().is_none());
}

#[test]
fn normalization_rejects_missing_kdsatker() {
    let d = raw(Some("123"), None, Some("2024-01-15T00:00:00.000000Z"));
    assert!(d.to_rekening().is_none());
}

#[test]
fn normalization_rejects_empty_kdsatker() {
    let d = raw(Some("123"), Some(""), Some("2024-01-15T00:00:00.000000Z"));
    assert!(d.to_rekening().is_none());
}

#[test]
fn normalization_keeps_fields_and_fills_defaults() {
    let r = full_raw().to_rekening().expect("valid record");
    assert_eq!(r.no_rekening, "123");
    assert_eq!(r.kd_satker, "S1");
    assert_eq!(r.kdjenis, "01");
    assert_eq!(r.nama_bank, "Bank A");
    assert_eq!(r.nama_rekening, "Operasional");
    assert_eq!(r.no_izin, "IZ-9");
    assert_eq!(r.tgl_izin, "2024-01-15");
    assert_eq!(r.desc_status_rekening, "Aktif");

    let sparse = raw(Some("77"), Some("S2"), Some("2024-02-29T10:20:30.5Z"));
    let r = sparse.to_rekening().expect("valid sparse record");
    assert_eq!(r.no_rekening, "77");
    assert_eq!(r.kd_satker, "S2");
    assert_eq!(r.kdjenis, "");
    assert_eq!(r.nama_bank, "");
    assert_eq!(r.nama_rekening, "");
    assert_eq!(r.no_izin, "");
    assert_eq!(r.desc_status_rekening, "");
    assert_eq!(r.tgl_izin, "2024-02-29");
}

#[test]
fn parse_permit_date_exact() {
    assert_eq!(
        parse_permit_date("2024-01-15T00:00:00.000000Z").as_deref(),
        Some("2024-01-15")
    );
    assert_eq!(
        parse_permit_date("2024-02-29T23:59:59.9Z").as_deref(),
        Some("2024-02-29")
    );
    assert_eq!(
        parse_permit_date("2000-02-29T01:02:03.123456789Z").as_deref(),
        Some("2000-02-29")
    );
    assert_eq!(parse_permit_date("1900-02-29T00:00:00.000000Z"), None);
    assert_eq!(parse_permit_date(""), None);
    assert_eq!(parse_permit_date("2024-01-15T00:00:00.00000xZ"), None);
}

#[test]
fn upsert_is_idempotent() {
    let mut store = Store::new(vec![unit("S1", true, None)]);
    let r = canonical("123");
    store.insert_rekening(&r);
    assert_eq!(store.get_rekening_count(), 1);
    assert_eq!(store.rows[0].version, 1);
    assert_eq!(store.rows[0].created_by, "SYSTEM");
    assert_eq!(store.rows[0].modified_by, "");
    store.insert_rekening(&r);
    assert_eq!(store.get_rekening_count(), 1);
    assert_eq!(store.rows[0].version, 2);
    assert_eq!(store.rows[0].no_rekening, "123");
    assert_eq!(store.rows[0].nama_bank, "Bank A");
    assert_eq!(store.rows[0].modified_by, "SYSTEM");
    store.insert_rekening(&r);
    assert_eq!(store.rows[0].version, 3);
    assert_eq!(store.rows[0].nama_bank, "Bank A");
}

#[test]
fn upsert_merges_on_key() {
    let mut store = Store::new(vec![]);
    store.insert_rekening(&canonical("123"));
    let mut changed = canonical("123");
    changed.nama_bank = "Bank B".to_string();
    changed.kdjenis = "99".to_string();
    store.insert_rekening(&changed);
    assert_eq!(store.get_rekening_count(), 1);
    assert_eq!(store.rows[0].nama_bank, "Bank B");
    // The kode column is written at insertion and not updated by the merge.
    assert_eq!(store.rows[0].kode, "01");
    assert_eq!(store.rows[0].version, 2);
    // Fixed defaults, not taken from the payload.
    assert_eq!(store.rows[0].owner, "1");
    assert_eq!(store.rows[0].kode_unit_teknis, "");
    assert_eq!(store.rows[0].status_rekening, 0);
    assert_eq!(store.rows[0].mata_uang, "IDR");
    assert_eq!(store.rows[0].deleted, 0);

    store.insert_rekening(&canonical("456"));
    assert_eq!(store.get_rekening_count(), 2);
    assert!(store.verify_rekening("123"));
    assert!(store.verify_rekening("456"));
    assert!(!store.verify_rekening("789"));
}

#[test]
fn faulted_unit_persists_nothing() {
    let mut store = Store::new(vec![unit("S1", true, None)]);
    let resp = envelope(true, vec![full_raw(), full_raw()]);
    let (committed, written) = process_single_satker(
        &mut store,
        "S1",
        &FetchResult::Success(resp),
        Some(0),
        1000,
    );
    assert!(!committed);
    assert_eq!(written, 0);
    assert_eq!(store.get_rekening_count(), 0);
    assert_eq!(store.units[0].last_fetch_date, None);
}

#[test]
fn commit_fault_persists_nothing() {
    let mut store = Store::new(vec![unit("S1", true, None)]);
    let resp = envelope(true, vec![full_raw()]);
    // Fault index one past the last upsert: the commit itself fails.
    let (committed, written) =
        process_single_satker(&mut store, "S1", &FetchResult::Success(resp), Some(1), 1000);
    assert!(!committed);
    assert_eq!(written, 0);
    assert_eq!(store.get_rekening_count(), 0);
    assert_eq!(store.units[0].last_fetch_date, None);
}

#[test]
fn selector_prefers_unfetched() {
    let store = Store::new(vec![
        unit("A", true, Some(86400)),
        unit("B", true, None),
    ]);
    let picked = store.get_active_satkers(10);
    assert_eq!(picked, vec!["B".to_string(), "A".to_string()]);
}

#[test]
fn selector_orders_by_staleness_and_limits() {
    let store = Store::new(vec![
        unit("fresh", true, Some(500)),
        unit("never", true, None),
        unit("stale", true, Some(100)),
        unit("inactive", false, None),
    ]);
    let all = store.get_active_satkers(10);
    assert_eq!(
        all,
        vec!["never".to_string(), "stale".to_string(), "fresh".to_string()]
    );
    let two = store.get_active_satkers(2);
    assert_eq!(two, vec!["never".to_string(), "stale".to_string()]);
    let none = store.get_active_satkers(0);
    assert!(none.is_empty());
}

#[test]
fn fetch_error_skips_unit() {
    let mut store = Store::new(vec![unit("S1", true, Some(5))]);
    let (committed, written) =
        process_single_satker(&mut store, "S1", &FetchResult::Error, None, 1000);
    assert!(!committed);
    assert_eq!(written, 0);
    assert_eq!(store.get_rekening_count(), 0);
    assert_eq!(store.units[0].last_fetch_date, Some(5));
}

#[test]
fn scenario_success_commits_and_advances_freshness() {
    let mut store = Store::new(vec![unit("S1", true, None)]);
    let events = vec![UnitEvent {
        kd_satker: "S1".to_string(),
        fetch: FetchResult::Success(envelope(true, vec![full_raw()])),
        fault_at: None,
    }];
    let (units_done, records) = process_all_satkers(&mut store, &events, 7777);
    assert_eq!(units_done, 1);
    assert_eq!(records, 1);
    assert!(store.verify_rekening("123"));
    assert_eq!(store.get_rekening_count(), 1);
    assert_eq!(store.units[0].last_fetch_date, Some(7777));
}

#[test]
fn scenario_failed_envelope_touches_nothing() {
    let mut store = Store::new(vec![unit("S1", true, None)]);
    let events = vec![UnitEvent {
        kd_satker: "S1".to_string(),
        fetch: FetchResult::Success(envelope(false, vec![full_raw()])),
        fault_at: None,
    }];
    let (units_done, records) = process_all_satkers(&mut store, &events, 7777);
    assert_eq!(units_done, 0);
    assert_eq!(records, 0);
    assert_eq!(store.get_rekening_count(), 0);
    assert_eq!(store.units[0].last_fetch_date, None);
}

#[test]
fn scenario_partial_normalization_commits_the_rest() {
    let mut store = Store::new(vec![unit("S1", true, None)]);
    let missing_norek = raw(None, Some("S1"), Some("2024-01-15T00:00:00.000000Z"));
    let events = vec![UnitEvent {
        kd_satker: "S1".to_string(),
        fetch: FetchResult::Success(envelope(true, vec![full_raw(), missing_norek])),
        fault_at: None,
    }];
    let (units_done, records) = process_all_satkers(&mut store, &events, 7777);
    assert_eq!(units_done, 1);
    assert_eq!(records, 1);
    assert_eq!(store.get_rekening_count(), 1);
    assert!(store.verify_rekening("123"));
    assert_eq!(store.units[0].last_fetch_date, Some(7777));
}

#[test]
fn scenario_unusable_records_leave_unit_stale() {
    let mut store = Store::new(vec![unit("S1", true, Some(42))]);
    let bad_date = raw(Some("123"), Some("S1"), Some("15-01-2024"));
    let events = vec![UnitEvent {
        kd_satker: "S1".to_string(),
        fetch: FetchResult::Success(envelope(true, vec![bad_date])),
        fault_at: None,
    }];
    let (units_done, records) = process_all_satkers(&mut store, &events, 7777);
    assert_eq!(units_done, 0);
    assert_eq!(records, 0);
    assert_eq!(store.get_rekening_count(), 0);
    assert_eq!(store.units[0].last_fetch_date, Some(42));
}

#[test]
fn scenario_empty_selection_ends_run() {
    let mut store = Store::new(vec![unit("S1", false, None)]);
    let events: Vec<UnitEvent> = vec![];
    let (units_done, records) = process_all_satkers(&mut store, &events, 7777);
    assert_eq!(units_done, 0);
    assert_eq!(records, 0);
    assert_eq!(store.get_rekening_count(), 0);
}

#[test]
fn fault_beyond_transaction_means_no_fault() {
    let mut store = Store::new(vec![unit("S1", true, None)]);
    let resp = envelope(true, vec![full_raw()]);
    // One record: upsert 0 and commit 1 are the transaction; index 2 is
    // outside it, so the store accepted everything.
    let (committed, written) =
        process_single_satker(&mut store, "S1", &FetchResult::Success(resp), Some(2), 1000);
    assert!(committed);
    assert_eq!(written, 1);
    assert_eq!(store.get_rekening_count(), 1);
    assert_eq!(store.units[0].last_fetch_date, Some(1000));
}

#[test]
fn normalize_records_keeps_order_and_skips_rejects() {
    let mut second = full_raw();
    second.norek = Some("456".to_string());
    let data = vec![
        full_raw(),
        raw(None, Some("S1"), Some("2024-01-15T00:00:00.000000Z")),
        second,
    ];
    let out = rekonrek::models::normalize_records(&data);
    assert_eq!(out.len(), 2);
    assert_eq!(out[0].no_rekening, "123");
    assert_eq!(out[1].no_rekening, "456");
}

#[test]
fn freshness_stamps_only_the_named_unit() {
    let mut store = Store::new(vec![unit("S1", true, Some(10)), unit("S2", true, Some(20))]);
    store.update_last_fetch_date("S2", 999);
    assert_eq!(store.units[0].last_fetch_date, Some(10));
    assert_eq!(store.units[1].last_fetch_date, Some(999));
}

#[test]
fn run_processes_each_unit_once_against_its_event() {
    let mut store = Store::new(vec![
        unit("A", true, Some(100)),
        unit("B", true, None),
        unit("C", true, Some(50)),
    ]);
    let events = vec![
        UnitEvent {
            kd_satker: "A".to_string(),
            fetch: FetchResult::Success(envelope(true, vec![full_raw()])),
            fault_at: None,
        },
        UnitEvent {
            kd_satker: "C".to_string(),
            fetch: FetchResult::Error,
            fault_at: None,
        },
    ];
    // B has no event: its fetch counts as failed. A commits one record.
    let (units_done, records) = process_all_satkers(&mut store, &events, 9999);
    assert_eq!(units_done, 1);
    assert_eq!(records, 1);
    assert_eq!(store.get_rekening_count(), 1);
    assert_eq!(store.units[0].last_fetch_date, Some(9999));
    assert_eq!(store.units[1].last_fetch_date, None);
    assert_eq!(store.units[2].last_fetch_date, Some(50));
}
