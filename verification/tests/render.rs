use pacq::datetime::DateTime;
use pacq::record::Crate;
use pacq::render::{render_record, render_terse};

fn full() -> Crate {
    Crate {
        created_at: DateTime {
            year: 2022,
            month: 11,
            day: 19,
            hour: 2,
            minute: 0,
            second: 18,
            microsecond: 123456,
        },
        description: Some(String::from("first pkg")),
        documentation: Some(String::from("https://docs.example/alpha")),
        downloads: 42,
        homepage: Some(String::from("https://alpha.example")),
        id: 1,
        max_upload_size: Some(-5),
        name: String::from("alpha"),
        readme: String::from("# alpha\n"),
        repository: Some(String::from("https://git.example/alpha")),
        updated_at: String::from("2022-11-19"),
    }
}

#[test]
fn full_report_with_every_field() {
    let expected = "Name              : alpha\n\
Description       : first pkg\n\
Version           : ()\n\
Description       : first pkg\n\
Homepage          : https://alpha.example\n\
Documentation     : https://docs.example/alpha\n\
Repository        : https://git.example/alpha\n\
Licenses          : ()\n\
Dependencies      : [()]\n\
Dev. dependencies : [()]\n\
Authors           : [()]\n\
Downloads         : 42\n\
Max upload size   : -5\n\
Created at        : 2022-11-19 02:00:18.123456\n\
UpdatedAt         : 2022-11-19\n";
    assert_eq!(render_record(&full()), expected);
}

#[test]
fn full_report_without_optional_fields() {
    let mut c = full();
    c.description = None;
    c.documentation = None;
    c.homepage = None;
    c.repository = None;
    c.max_upload_size = None;
    c.downloads = -1;
    let expected = "Name              : alpha\n\
Version           : ()\n\
Licenses          : ()\n\
Dependencies      : [()]\n\
Dev. dependencies : [()]\n\
Authors           : [()]\n\
Downloads         : -1\n\
Created at        : 2022-11-19 02:00:18.123456\n\
UpdatedAt         : 2022-11-19\n";
    assert_eq!(render_record(&c), expected);
}

#[test]
fn terse_form_is_one_name_per_line() {
    let mut a = full();
    a.name = String::from("alpha");
    let mut b = full();
    b.name = String::from("beta");
    assert_eq!(render_terse(&vec![a, b]), "alpha\nbeta\n");
    assert_eq!(render_terse(&vec![]), "");
}
