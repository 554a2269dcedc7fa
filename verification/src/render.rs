//! The record renderer: a terse name-per-line form and a labeled multi-line
//! report for one record.
//!
//! The full form repeats the Description line when a description is present,
//! once early and once mid-report: a defined quirk of the report layout,
//! preserved on purpose. Version, Licenses, Dependencies, Dev. dependencies
//! and Authors carry only placeholder values: the schema has no such data.

use vstd::prelude::*;

use crate::datetime::{render_timestamp, timestamp_text};
use crate::num::{dec_int, i32_to_string};
use crate::record::{Crate, CrateModel};

verus! {

/// One labeled line for an optional field: nothing when the field is absent.
pub open spec fn opt_line(label: Seq<char>, v: Option<Seq<char>>) -> Seq<char> {
    match v {
        Some(s) => label + s + "\n"@,
        None => Seq::empty(),
    }
}

/// The full labeled report of one record.
pub open spec fn full_report(m: CrateModel) -> Seq<char> {
    "Name              : "@ + m.name + "\n"@ + opt_line("Description       : "@, m.description)
        + "Version           : ()\n"@ + opt_line("Description       : "@, m.description)
        + opt_line("Homepage          : "@, m.homepage) + opt_line(
        "Documentation     : "@,
        m.documentation,
    ) + opt_line("Repository        : "@, m.repository) + "Licenses          : ()\n"@
        + "Dependencies      : [()]\n"@ + "Dev. dependencies : [()]\n"@
        + "Authors           : [()]\n"@ + "Downloads         : "@ + dec_int(m.downloads) + "\n"@
        + (match m.max_upload_size {
        Some(v) => "Max upload size   : "@ + dec_int(v) + "\n"@,
        None => Seq::empty(),
    }) + "Created at        : "@ + timestamp_text(m.created_at) + "\n"@
        + "UpdatedAt         : "@ + m.updated_at + "\n"@
}

/// The terse form of a record sequence: each record's name, one per line.
pub open spec fn terse_report(store: Seq<CrateModel>) -> Seq<char>
    decreases store.len(),
{
    if store.len() == 0 {
        Seq::empty()
    } else {
        terse_report(store.drop_last()) + store.last().name + "\n"@
    }
}

/// Appends one labeled line when the field is present.
fn append_opt_line(s: &mut String, label: &str, v: &Option<String>)
    ensures
        final (s)@ == old(s)@ + opt_line(label@, v.deep_view()),
{
    match v {
        Some(t) => {
            s.append(label);
            s.append(t.as_str());
            s.append("\n");
        },
        None => {
            proof {
                assert(old(s)@ + opt_line(label@, v.deep_view()) =~= old(s)@);
            }
        },
    }
}

/// Renders one record as the full labeled report.
///
/// The record's readme body is not part of the report: rendering it is the
/// terminal formatter's job, outside this library.
pub fn render_record(c: &Crate) -> (r: String)
    ensures
        r@ == full_report(c@),
{
    let mut s = String::from_str("Name              : ");
    s.append(c.name.as_str());
    s.append("\n");
    append_opt_line(&mut s, "Description       : ", &c.description);
    s.append("Version           : ()\n");
    append_opt_line(&mut s, "Description       : ", &c.description);
    append_opt_line(&mut s, "Homepage          : ", &c.homepage);
    append_opt_line(&mut s, "Documentation     : ", &c.documentation);
    append_opt_line(&mut s, "Repository        : ", &c.repository);
    s.append("Licenses          : ()\n");
    s.append("Dependencies      : [()]\n");
    s.append("Dev. dependencies : [()]\n");
    s.append("Authors           : [()]\n");
    s.append("Downloads         : ");
    s.append(i32_to_string(c.downloads).as_str());
    s.append("\n");
    match c.max_upload_size {
        Some(v) => {
            s.append("Max upload size   : ");
            s.append(i32_to_string(v).as_str());
            s.append("\n");
        },
        None => {},
    }
    s.append("Created at        : ");
    s.append(render_timestamp(&c.created_at).as_str());
    s.append("\n");
    s.append("UpdatedAt         : ");
    s.append(c.updated_at.as_str());
    s.append("\n");
    proof {
        assert(s@ =~= full_report(c@));
    }
    s
}

/// Renders a record sequence tersely: each record's name, one per line,
/// nothing else.
pub fn render_terse(records: &Vec<Crate>) -> (r: String)
    ensures
        r@ == terse_report(records.deep_view()),
{
    let ghost rdv = records.deep_view();
    let mut s = String::new();
    let mut i: usize = 0;
    while i < records.len()
        invariant
            0 <= i <= records@.len(),
            rdv == records.deep_view(),
            rdv.len() == records@.len(),
            s@ == terse_report(rdv.subrange(0, i as int)),
        decreases records@.len() - i,
    {
        proof {
            assert(rdv[i as int] == records@[i as int].deep_view());
        }
        s.append(records[i].name.as_str());
        s.append("\n");
        proof {
            assert(rdv.subrange(0, i + 1).drop_last() =~= rdv.subrange(0, i as int));
            assert(rdv.subrange(0, i + 1).last() == rdv[i as int]);
            assert(s@ =~= terse_report(rdv.subrange(0, i + 1)));
        }
        i += 1;
    }
    proof {
        assert(rdv.subrange(0, rdv.len() as int) =~= rdv);
    }
    s
}

} // verus!
