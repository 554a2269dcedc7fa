use pacq::loader::{load_store, LoadError};

const HEADER: &str = "created_at,description,documentation,downloads,homepage,id,max_upload_size,name,readme,repository,updated_at";

fn db(rows: &[&str]) -> Vec<u8> {
    let mut s = String::from(HEADER);
    for r in rows {
        s.push('\n');
        s.push_str(r);
    }
    s.push('\n');
    s.into_bytes()
}

#[test]
fn loads_records_in_file_order() {
    let data = db(&[
        "2022-11-19 02:00:18.123456,first pkg,,42,,1,,alpha,alpha readme,,2022-11-19",
        "2021-01-02 03:04:05.000000,,https://docs.example/beta,0,https://beta.example,2,512,beta,,https://git.example/beta,irregular text",
    ]);
    let store = load_store(&data).unwrap();
    assert_eq!(store.len(), 2);

    assert_eq!(store[0].name, "alpha");
    assert_eq!(store[0].description.as_deref(), Some("first pkg"));
    assert_eq!(store[0].documentation, None);
    assert_eq!(store[0].downloads, 42);
    assert_eq!(store[0].homepage, None);
    assert_eq!(store[0].id, 1);
    assert_eq!(store[0].max_upload_size, None);
    assert_eq!(store[0].readme, "alpha readme");
    assert_eq!(store[0].repository, None);
    assert_eq!(store[0].updated_at, "2022-11-19");
    assert_eq!(store[0].created_at.year, 2022);
    assert_eq!(store[0].created_at.month, 11);
    assert_eq!(store[0].created_at.day, 19);
    assert_eq!(store[0].created_at.hour, 2);
    assert_eq!(store[0].created_at.minute, 0);
    assert_eq!(store[0].created_at.second, 18);
    assert_eq!(store[0].created_at.microsecond, 123456);

    assert_eq!(store[1].name, "beta");
    assert_eq!(store[1].description, None);
    assert_eq!(store[1].documentation.as_deref(), Some("https://docs.example/beta"));
    assert_eq!(store[1].downloads, 0);
    assert_eq!(store[1].homepage.as_deref(), Some("https://beta.example"));
    assert_eq!(store[1].id, 2);
    assert_eq!(store[1].max_upload_size, Some(512));
    assert_eq!(store[1].readme, "");
    assert_eq!(store[1].repository.as_deref(), Some("https://git.example/beta"));
    assert_eq!(store[1].updated_at, "irregular text");
}

#[test]
fn quoted_field_with_comma_and_quotes() {
    let data = db(&[
        "2022-11-19 02:00:18.000001,\"a, quoted \"\"desc\"\"\",,7,,3,,gamma,\"line one\nline two\",,raw",
    ]);
    let store = load_store(&data).unwrap();
    assert_eq!(store.len(), 1);
    assert_eq!(store[0].description.as_deref(), Some("a, quoted \"desc\""));
    assert_eq!(store[0].readme, "line one\nline two");
}

#[test]
fn header_only_is_an_empty_store() {
    let mut data = String::from(HEADER).into_bytes();
    data.push(b'\n');
    let store = load_store(&data).unwrap();
    assert_eq!(store.len(), 0);
}

#[test]
fn empty_input_fails() {
    assert_eq!(load_store(&[]), Err(LoadError::Header));
}

#[test]
fn wrong_header_fails() {
    let data =
        b"name,description\nalpha,first pkg\n".to_vec();
    assert_eq!(load_store(&data), Err(LoadError::Header));
}

#[test]
fn reordered_header_fails() {
    let mut s = String::from(
        "description,created_at,documentation,downloads,homepage,id,max_upload_size,name,readme,repository,updated_at",
    );
    s.push_str("\nfirst pkg,2022-11-19 02:00:18.123456,,42,,1,,alpha,,,raw\n");
    assert_eq!(load_store(s.as_bytes()), Err(LoadError::Header));
}

#[test]
fn missing_column_fails_whole_load() {
    let data = db(&[
        "2022-11-19 02:00:18.123456,first pkg,,42,,1,,alpha,alpha readme,,2022-11-19",
        "2021-01-02 03:04:05.000000,,,0,,2,,beta,,",
    ]);
    assert_eq!(load_store(&data), Err(LoadError::Row));
}

#[test]
fn extra_column_fails_whole_load() {
    let data = db(&[
        "2022-11-19 02:00:18.123456,first pkg,,42,,1,,alpha,alpha readme,,2022-11-19,surplus",
    ]);
    assert_eq!(load_store(&data), Err(LoadError::Row));
}

#[test]
fn bad_timestamp_fails_whole_load() {
    let data = db(&[
        "2022-11-19 02:00:18.123456,first pkg,,42,,1,,alpha,alpha readme,,2022-11-19",
        "2021-13-02 03:04:05.000000,,,0,,2,,beta,,,raw",
    ]);
    assert_eq!(load_store(&data), Err(LoadError::Row));
}

#[test]
fn bad_downloads_fails_whole_load() {
    let data = db(&[
        "2022-11-19 02:00:18.123456,first pkg,,not a number,,1,,alpha,alpha readme,,2022-11-19",
    ]);
    assert_eq!(load_store(&data), Err(LoadError::Row));
}

#[test]
fn bad_max_upload_size_fails_whole_load() {
    let data = db(&[
        "2022-11-19 02:00:18.123456,first pkg,,42,,1,12kb,alpha,alpha readme,,2022-11-19",
    ]);
    assert_eq!(load_store(&data), Err(LoadError::Row));
}

#[test]
fn invalid_utf8_is_malformed() {
    let mut data = db(&[
        "2022-11-19 02:00:18.123456,first pkg,,42,,1,,alpha,alpha readme,,2022-11-19",
    ]);
    data.push(0xff);
    data.push(0xfe);
    assert_eq!(load_store(&data), Err(LoadError::Malformed));
}
