//! The record store loader: strict decoding of the tabular database into
//! package records. A single row that fails to decode fails the whole load.

use vstd::prelude::*;

use crate::csvio::{csv_parse, parse_csv};
use crate::datetime::spec_parse_timestamp;
use crate::datetime::parse_timestamp;
use crate::num::{parse_i32, spec_parse_i32};
use crate::record::{Crate, CrateModel};

verus! {

/// Why a load failed.
#[derive(Clone, Copy, PartialEq, Eq, Structural, Debug)]
pub enum LoadError {
    /// The bytes are not decodable tabular data.
    Malformed,
    /// The header row is missing or is not the expected column layout.
    Header,
    /// A data row has the wrong number of fields or an undecodable field.
    Row,
}

/// The exact column layout the database must have.
pub open spec fn expected_header() -> Seq<Seq<char>> {
    seq![
        "created_at"@,
        "description"@,
        "documentation"@,
        "downloads"@,
        "homepage"@,
        "id"@,
        "max_upload_size"@,
        "name"@,
        "readme"@,
        "repository"@,
        "updated_at"@,
    ]
}

/// An optional text field: an empty field is an absent value.
pub open spec fn spec_opt_text(f: Seq<char>) -> Option<Seq<char>> {
    if f.len() == 0 {
        None
    } else {
        Some(f)
    }
}

/// An optional integer field: an empty field is an absent value, anything
/// else must be a well-formed integer.
pub open spec fn spec_opt_i32(f: Seq<char>) -> Option<Option<int>> {
    if f.len() == 0 {
        Some(None)
    } else {
        match spec_parse_i32(f) {
            Some(v) => Some(Some(v as int)),
            None => None,
        }
    }
}

/// What decoding one data row yields: a record when the row has exactly the
/// expected fields and each decodes, nothing otherwise.
pub open spec fn spec_decode_row(row: Seq<Seq<char>>) -> Option<CrateModel> {
    if row.len() != 11 {
        None
    } else {
        match (spec_parse_timestamp(row[0]), spec_parse_i32(row[3]), spec_parse_i32(row[5]),
        spec_opt_i32(row[6])) {
            (Some(ts), Some(dl), Some(idv), Some(mus)) => Some(
                CrateModel {
                    created_at: ts,
                    description: spec_opt_text(row[1]),
                    documentation: spec_opt_text(row[2]),
                    downloads: dl as int,
                    homepage: spec_opt_text(row[4]),
                    id: idv as int,
                    max_upload_size: mus,
                    name: row[7],
                    readme: row[8],
                    repository: spec_opt_text(row[9]),
                    updated_at: row[10],
                },
            ),
            _ => None,
        }
    }
}

/// What decoding a sequence of data rows yields: every record, in row order,
/// or nothing as soon as any row fails.
pub open spec fn spec_decode_rows(rows: Seq<Seq<Seq<char>>>) -> Option<Seq<CrateModel>>
    decreases rows.len(),
{
    if rows.len() == 0 {
        Some(Seq::empty())
    } else {
        match (spec_decode_rows(rows.drop_last()), spec_decode_row(rows.last())) {
            (Some(s), Some(m)) => Some(s.push(m)),
            _ => None,
        }
    }
}

/// What loading the store from raw bytes yields: the decoded records in file
/// order, or the first applicable error; no partial stores.
pub open spec fn spec_load(data: Seq<u8>) -> Result<Seq<CrateModel>, LoadError> {
    match csv_parse(data) {
        None => Err(LoadError::Malformed),
        Some(rows) => if rows.len() == 0 || rows[0] != expected_header() {
            Err(LoadError::Header)
        } else {
            match spec_decode_rows(rows.subrange(1, rows.len() as int)) {
                Some(s) => Ok(s),
                None => Err(LoadError::Row),
            }
        },
    }
}

/// A load result, seen in the model.
pub open spec fn load_result_model(r: Result<Vec<Crate>, LoadError>) -> Result<
    Seq<CrateModel>,
    LoadError,
> {
    match r {
        Ok(v) => Ok(v.deep_view()),
        Err(e) => Err(e),
    }
}

/// One bad row anywhere fails the decoding of the whole row sequence.
pub proof fn lemma_decode_rows_bad(rows: Seq<Seq<Seq<char>>>, k: int)
    requires
        0 <= k < rows.len(),
        spec_decode_row(rows[k]) is None,
    ensures
        spec_decode_rows(rows) is None,
    decreases rows.len(),
{
    if k < rows.len() - 1 {
        assert(rows.drop_last()[k] == rows[k]);
        lemma_decode_rows_bad(rows.drop_last(), k);
    }
}

/// Whether a field holds exactly the given text.
fn field_is(f: &String, lit: &str) -> (r: bool)
    ensures
        r == (f@ == lit@),
{
    let l = String::from_str(lit);
    f.eq(&l)
}

/// Checks the header row against the expected column layout.
fn check_header(hdr: &Vec<String>) -> (r: bool)
    ensures
        r == (hdr.deep_view() == expected_header()),
{
    if hdr.len() != 11 {
        assert(hdr.deep_view().len() != expected_header().len());
        return false;
    }
    let names: [&str; 11] = [
        "created_at",
        "description",
        "documentation",
        "downloads",
        "homepage",
        "id",
        "max_upload_size",
        "name",
        "readme",
        "repository",
        "updated_at",
    ];
    let mut i: usize = 0;
    while i < 11
        invariant
            0 <= i <= 11,
            hdr@.len() == 11,
            names@.len() == 11,
            forall|j: int| 0 <= j < 11 ==> (#[trigger] names@[j])@ == expected_header()[j],
            forall|j: int| 0 <= j < i ==> #[trigger] hdr.deep_view()[j] == expected_header()[j],
        decreases 11 - i,
    {
        if !field_is(&hdr[i], names[i]) {
            assert(hdr.deep_view()[i as int] != expected_header()[i as int]);
            return false;
        }
        i += 1;
    }
    proof {
        assert(hdr.deep_view() =~= expected_header());
    }
    true
}

/// Decodes one data row into a record, strictly.
fn decode_row(row: &Vec<String>) -> (r: Option<Crate>)
    ensures
        r is Some <==> spec_decode_row(row.deep_view()) is Some,
        r matches Some(c) ==> spec_decode_row(row.deep_view()) == Some(c@),
{
    if row.len() != 11 {
        return None;
    }
    let created_at = match parse_timestamp(row[0].as_str()) {
        Some(d) => d,
        None => {
            return None;
        },
    };
    let downloads = match parse_i32(row[3].as_str()) {
        Some(v) => v,
        None => {
            return None;
        },
    };
    let id = match parse_i32(row[5].as_str()) {
        Some(v) => v,
        None => {
            return None;
        },
    };
    let max_upload_size = if row[6].as_str().is_empty() {
        None
    } else {
        match parse_i32(row[6].as_str()) {
            Some(v) => Some(v),
            None => {
                return None;
            },
        }
    };
    let description = opt_field(&row[1]);
    let documentation = opt_field(&row[2]);
    let homepage = opt_field(&row[4]);
    let repository = opt_field(&row[9]);
    Some(
        Crate {
            created_at,
            description,
            documentation,
            downloads,
            homepage,
            id,
            max_upload_size,
            name: row[7].clone(),
            readme: row[8].clone(),
            repository,
            updated_at: row[10].clone(),
        },
    )
}

/// Reads an optional text field: empty means absent.
fn opt_field(f: &String) -> (r: Option<String>)
    ensures
        r.deep_view() == spec_opt_text(f@),
{
    if f.as_str().is_empty() {
        None
    } else {
        Some(f.clone())
    }
}

/// Loads the package store from the raw bytes of the database file.
///
/// Decoding is strict: a missing or unexpected header, a row with extra or
/// missing columns, or an undecodable field fails the whole load; no records
/// are returned alongside a failure.
pub fn load_store(data: &[u8]) -> (r: Result<Vec<Crate>, LoadError>)
    ensures
        load_result_model(r) == spec_load(data@),
{
    let rows = match parse_csv(data) {
        Some(rows) => rows,
        None => {
            return Err(LoadError::Malformed);
        },
    };
    if rows.len() == 0 {
        return Err(LoadError::Header);
    }
    if !check_header(&rows[0]) {
        proof {
            assert(rows.deep_view()[0] == rows@[0].deep_view());
        }
        return Err(LoadError::Header);
    }
    proof {
        assert(rows.deep_view()[0] == rows@[0].deep_view());
    }
    let mut out: Vec<Crate> = Vec::new();
    let n = rows.len();
    let mut i: usize = 1;
    while i < n
        invariant
            1 <= i <= n,
            n == rows@.len(),
            csv_parse(data@) == Some(rows.deep_view()),
            rows.deep_view().len() == n,
            rows.deep_view()[0] == expected_header(),
            spec_decode_rows(rows.deep_view().subrange(1, i as int)) == Some(out.deep_view()),
        decreases n - i,
    {
        let ghost rdv = rows.deep_view();
        proof {
            assert(rdv[i as int] == rows@[i as int].deep_view());
        }
        match decode_row(&rows[i]) {
            Some(c) => {
                out.push(c);
                proof {
                    assert(rdv.subrange(1, i + 1).drop_last() =~= rdv.subrange(1, i as int));
                    assert(rdv.subrange(1, i + 1).last() == rdv[i as int]);
                    assert(out.deep_view() =~= spec_decode_rows(rdv.subrange(1, i as int)).unwrap().push(c@));
                }
            },
            None => {
                proof {
                    let all = rdv.subrange(1, rdv.len() as int);
                    assert(all[i - 1] == rdv[i as int]);
                    lemma_decode_rows_bad(all, i - 1);
                }
                return Err(LoadError::Row);
            },
        }
        i += 1;
    }
    proof {
        let rdv = rows.deep_view();
        assert(rdv.subrange(1, rdv.len() as int) =~= rdv.subrange(1, i as int));
    }
    Ok(out)
}

} // verus!
