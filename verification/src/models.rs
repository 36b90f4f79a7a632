//! Data model: the raw record envelope as the remote source returns it, the
//! raw record itself, and the canonical record ready for storage, together
//! with validation and normalization.

use vstd::prelude::*;

use crate::permit_date::{date_part, permit_datetime_valid};
use crate::text::{blank_str, is_blank};

verus! {

/// A raw fetched record: an envelope of optional string fields. No field is
/// guaranteed present; absence is the normal case for malformed upstream data.
pub struct RekeningData {
    pub kdjenis: Option<String>,
    pub nmjenis: Option<String>,
    pub kdsatker: Option<String>,
    pub kdbank: Option<String>,
    pub kdjenbank: Option<String>,
    pub nmbank: Option<String>,
    pub nmcabang: Option<String>,
    pub nmrek: Option<String>,
    pub norek: Option<String>,
    pub noizin: Option<String>,
    pub tglizin: Option<String>,
    pub kdstatus: Option<String>,
    pub nmstatus: Option<String>,
}

/// The response envelope: a success flag, a message, and an ordered sequence
/// of raw records. An absent record sequence decodes as empty at the edge,
/// never as an error; `length` is advisory only.
pub struct RekeningResponse {
    pub success: bool,
    pub message: String,
    pub code: String,
    pub data: Vec<RekeningData>,
    pub length: i32,
}

/// A canonical record: validated and normalized, ready to be applied to
/// storage. The account number is the merge key.
pub struct Rekening {
    pub kdjenis: String,
    pub kd_satker: String,
    pub nama_bank: String,
    pub nama_rekening: String,
    pub no_izin: String,
    pub no_rekening: String,
    pub tgl_izin: String,
    pub desc_status_rekening: String,
}

/// Mathematical view of a raw record.
#[verifier::ext_equal]
pub ghost struct RekeningDataV {
    pub kdjenis: Option<Seq<char>>,
    pub nmjenis: Option<Seq<char>>,
    pub kdsatker: Option<Seq<char>>,
    pub kdbank: Option<Seq<char>>,
    pub kdjenbank: Option<Seq<char>>,
    pub nmbank: Option<Seq<char>>,
    pub nmcabang: Option<Seq<char>>,
    pub nmrek: Option<Seq<char>>,
    pub norek: Option<Seq<char>>,
    pub noizin: Option<Seq<char>>,
    pub tglizin: Option<Seq<char>>,
    pub kdstatus: Option<Seq<char>>,
    pub nmstatus: Option<Seq<char>>,
}

/// Mathematical view of a response envelope.
#[verifier::ext_equal]
pub ghost struct RekeningResponseV {
    pub success: bool,
    pub message: Seq<char>,
    pub code: Seq<char>,
    pub data: Seq<RekeningDataV>,
    pub length: int,
}

/// Mathematical view of a canonical record.
#[verifier::ext_equal]
pub ghost struct RekeningV {
    pub kdjenis: Seq<char>,
    pub kd_satker: Seq<char>,
    pub nama_bank: Seq<char>,
    pub nama_rekening: Seq<char>,
    pub no_izin: Seq<char>,
    pub no_rekening: Seq<char>,
    pub tgl_izin: Seq<char>,
    pub desc_status_rekening: Seq<char>,
}

impl View for RekeningData {
    type V = RekeningDataV;

    open spec fn view(&self) -> RekeningDataV {
        RekeningDataV {
            kdjenis: self.kdjenis.deep_view(),
            nmjenis: self.nmjenis.deep_view(),
            kdsatker: self.kdsatker.deep_view(),
            kdbank: self.kdbank.deep_view(),
            kdjenbank: self.kdjenbank.deep_view(),
            nmbank: self.nmbank.deep_view(),
            nmcabang: self.nmcabang.deep_view(),
            nmrek: self.nmrek.deep_view(),
            norek: self.norek.deep_view(),
            noizin: self.noizin.deep_view(),
            tglizin: self.tglizin.deep_view(),
            kdstatus: self.kdstatus.deep_view(),
            nmstatus: self.nmstatus.deep_view(),
        }
    }
}

impl DeepView for RekeningData {
    type V = RekeningDataV;

    open spec fn deep_view(&self) -> RekeningDataV {
        self.view()
    }
}

impl View for RekeningResponse {
    type V = RekeningResponseV;

    open spec fn view(&self) -> RekeningResponseV {
        RekeningResponseV {
            success: self.success,
            message: self.message@,
            code: self.code@,
            data: self.data.deep_view(),
            length: self.length as int,
        }
    }
}

impl DeepView for RekeningResponse {
    type V = RekeningResponseV;

    open spec fn deep_view(&self) -> RekeningResponseV {
        self.view()
    }
}

impl View for Rekening {
    type V = RekeningV;

    open spec fn view(&self) -> RekeningV {
        RekeningV {
            kdjenis: self.kdjenis@,
            kd_satker: self.kd_satker@,
            nama_bank: self.nama_bank@,
            nama_rekening: self.nama_rekening@,
            no_izin: self.no_izin@,
            no_rekening: self.no_rekening@,
            tgl_izin: self.tgl_izin@,
            desc_status_rekening: self.desc_status_rekening@,
        }
    }
}

impl DeepView for Rekening {
    type V = RekeningV;

    open spec fn deep_view(&self) -> RekeningV {
        self.view()
    }
}

/// A missing optional field normalizes to the empty string, never to absence.
pub open spec fn or_empty(o: Option<Seq<char>>) -> Seq<char> {
    match o {
        Option::Some(s) => s,
        Option::None => Seq::empty(),
    }
}

/// A raw record is acceptable when its account number is present and not
/// blank, its permit date is present and of the fixed upstream format, and
/// its owning unit code is present and non-empty.
pub open spec fn raw_acceptable(d: RekeningDataV) -> bool {
    &&& d.norek is Some
    &&& !is_blank(d.norek->Some_0)
    &&& d.tglizin is Some
    &&& permit_datetime_valid(d.tglizin->Some_0)
    &&& d.kdsatker is Some
    &&& d.kdsatker->Some_0.len() > 0
}

/// Normalization of one raw record: the canonical record, or nothing when the
/// raw record is rejected.
pub open spec fn normalize_one(d: RekeningDataV) -> Option<RekeningV> {
    if raw_acceptable(d) {
        Option::Some(
            RekeningV {
                kdjenis: or_empty(d.kdjenis),
                kd_satker: d.kdsatker->Some_0,
                nama_bank: or_empty(d.nmbank),
                nama_rekening: or_empty(d.nmrek),
                no_izin: or_empty(d.noizin),
                no_rekening: d.norek->Some_0,
                tgl_izin: date_part(d.tglizin->Some_0),
                desc_status_rekening: or_empty(d.nmstatus),
            },
        )
    } else {
        Option::None
    }
}

/// Normalization of a record sequence: rejected records are skipped, the
/// order of the kept records is preserved.
pub open spec fn normalize_seq(ds: Seq<RekeningDataV>) -> Seq<RekeningV>
    decreases ds.len(),
{
    if ds.len() == 0 {
        Seq::empty()
    } else {
        match normalize_one(ds.last()) {
            Option::Some(r) => normalize_seq(ds.drop_last()).push(r),
            Option::None => normalize_seq(ds.drop_last()),
        }
    }
}

/// Clones an optional field, defaulting to the empty string when absent.
fn clone_or_empty(o: &Option<String>) -> (r: String)
    ensures
        r@ == or_empty(o.deep_view()),
{
    match o {
        Option::Some(s) => s.clone(),
        Option::None => String::new(),
    }
}

impl RekeningData {
    /// Validates and normalizes this raw record. Returns nothing exactly when
    /// the account number is missing or blank, the permit date is missing or
    /// not of the fixed upstream format, or the owning unit code is missing
    /// or empty; otherwise returns the canonical record, with every remaining
    /// absent optional field as the empty string.
    pub fn to_rekening(&self) -> (r: Option<Rekening>)
        ensures
            r.deep_view() == normalize_one(self@),
            r is Some <==> raw_acceptable(self@),
            self.norek is None ==> r is None,
            self.norek matches Some(s) && is_blank(s@) ==> r is None,
            self.tglizin is None ==> r is None,
            self.tglizin matches Some(s) && !permit_datetime_valid(s@) ==> r is None,
            self.kdsatker is None ==> r is None,
            self.kdsatker matches Some(s) && s@.len() == 0 ==> r is None,
            // A canonical record never exists without a non-empty account
            // number, a non-empty owning unit code, and a parsed calendar
            // date.
            r matches Some(k) ==> k.no_rekening@.len() > 0 && k.kd_satker@.len() > 0
                && k.tgl_izin@ == date_part(self.tglizin->Some_0@),
    {
        let no_rekening: String = match &self.norek {
            Option::Some(norek) => {
                if blank_str(norek.as_str()) {
                    return Option::None;
                }
                norek.clone()
            },
            Option::None => {
                return Option::None;
            },
        };
        let tgl_izin: String = match &self.tglizin {
            Option::Some(date_str) => {
                match crate::permit_date::parse_permit_date(date_str.as_str()) {
                    Option::Some(d) => d,
                    Option::None => {
                        return Option::None;
                    },
                }
            },
            Option::None => {
                return Option::None;
            },
        };
        let kd_satker: String = match &self.kdsatker {
            Option::Some(kd) => {
                if kd.as_str().is_empty() {
                    return Option::None;
                }
                kd.clone()
            },
            Option::None => {
                return Option::None;
            },
        };
        Option::Some(
            Rekening {
                kdjenis: clone_or_empty(&self.kdjenis),
                kd_satker,
                nama_bank: clone_or_empty(&self.nmbank),
                nama_rekening: clone_or_empty(&self.nmrek),
                no_izin: clone_or_empty(&self.noizin),
                no_rekening,
                tgl_izin,
                desc_status_rekening: clone_or_empty(&self.nmstatus),
            },
        )
    }
}

/// Normalizes every record of a fetched sequence, skipping the rejected ones
/// and keeping the order of the rest.
pub fn normalize_records(data: &Vec<RekeningData>) -> (out: Vec<Rekening>)
    ensures
        out.deep_view() == normalize_seq(data.deep_view()),
        out.len() <= data.len(),
{
    let mut out: Vec<Rekening> = Vec::new();
    let mut i: usize = 0;
    while i < data.len()
        invariant
            0 <= i <= data.len(),
            out.deep_view() == normalize_seq(data.deep_view().take(i as int)),
            out.len() <= i,
        decreases data.len() - i,
    {
        proof {
            assert(data.deep_view().take(i as int + 1).drop_last() =~= data.deep_view().take(
                i as int,
            ));
            assert(data.deep_view().take(i as int + 1).last() == data.deep_view()[i as int]);
        }
        match data[i].to_rekening() {
            Option::Some(r) => {
                out.push(r);
            },
            Option::None => {},
        }
        i = i + 1;
    }
    proof {
        assert(data.deep_view().take(data.len() as int) =~= data.deep_view());
    }
    out
}

} // verus!
