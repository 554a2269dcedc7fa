use pacq::datetime::DateTime;
use pacq::engine::{run_sync, select_records, Request, SyncError};
use pacq::loader::LoadError;
use pacq::record::Crate;
use pacq::render::render_terse;

fn ts() -> DateTime {
    DateTime { year: 2022, month: 11, day: 19, hour: 2, minute: 0, second: 18, microsecond: 0 }
}

fn rec(name: &str, description: Option<&str>, downloads: i32) -> Crate {
    Crate {
        created_at: ts(),
        description: description.map(String::from),
        documentation: None,
        downloads,
        homepage: None,
        id: 0,
        max_upload_size: None,
        name: String::from(name),
        readme: String::new(),
        repository: None,
        updated_at: String::from("raw"),
    }
}

fn scenario_store() -> Vec<Crate> {
    vec![
        rec("alpha", Some("first pkg"), 1),
        rec("beta", None, 2),
        rec("gamma", Some("alpha clone"), 3),
    ]
}

fn req_list(quiet: bool) -> Request {
    Request { packages: vec![], info: false, list: true, quiet, search: None }
}

fn req_search(pat: &str) -> Request {
    Request { packages: vec![], info: false, list: false, quiet: false, search: Some(pat.into()) }
}

fn req_lookup(names: &[&str]) -> Request {
    Request {
        packages: names.iter().map(|n| String::from(*n)).collect(),
        info: true,
        list: false,
        quiet: false,
        search: None,
    }
}

fn names(records: &[Crate]) -> Vec<&str> {
    records.iter().map(|c| c.name.as_str()).collect()
}

#[test]
fn search_matches_name_or_description() {
    let store = scenario_store();
    let r = select_records(&store, &req_search("alpha")).unwrap();
    assert_eq!(names(&r), ["alpha", "gamma"]);
}

#[test]
fn list_all_returns_every_record_in_store_order() {
    let store = scenario_store();
    let r = select_records(&store, &req_list(true)).unwrap();
    assert_eq!(names(&r), ["alpha", "beta", "gamma"]);
    assert_eq!(render_terse(&r), "alpha\nbeta\ngamma\n");
}

#[test]
fn lookup_keeps_request_order_and_skips_missing() {
    let store = scenario_store();
    let r = select_records(&store, &req_lookup(&["gamma", "zzz", "alpha"])).unwrap();
    assert_eq!(names(&r), ["gamma", "alpha"]);
}

#[test]
fn lookup_duplicate_request_yields_duplicate_results() {
    let store = scenario_store();
    let r = select_records(&store, &req_lookup(&["beta", "beta"])).unwrap();
    assert_eq!(names(&r), ["beta", "beta"]);
}

#[test]
fn duplicate_name_later_record_wins() {
    let store = vec![rec("foo", Some("older"), 1), rec("bar", None, 2), rec("foo", Some("newer"), 3)];
    let r = select_records(&store, &req_lookup(&["foo"])).unwrap();
    assert_eq!(r.len(), 1);
    assert_eq!(r[0].downloads, 3);
    assert_eq!(r[0].description.as_deref(), Some("newer"));
}

#[test]
fn record_without_description_never_matches_on_description() {
    let store = scenario_store();
    let r = select_records(&store, &req_search("pkg|clone")).unwrap();
    assert_eq!(names(&r), ["alpha", "gamma"]);
}

#[test]
fn search_anchors_and_classes_reach_the_regex_engine() {
    let store = scenario_store();
    let r = select_records(&store, &req_search("^g")).unwrap();
    assert_eq!(names(&r), ["gamma"]);
    let r = select_records(&store, &req_search("a{2}")).unwrap();
    assert_eq!(names(&r), Vec::<&str>::new());
}

#[test]
fn search_wins_over_names() {
    let store = scenario_store();
    let mut req = req_search("^beta$");
    req.packages = vec![String::from("alpha")];
    let r = select_records(&store, &req).unwrap();
    assert_eq!(names(&r), ["beta"]);
}

#[test]
fn invalid_pattern_is_a_pattern_error() {
    let store = scenario_store();
    assert_eq!(select_records(&store, &req_search("(")), Err(SyncError::Pattern));
}

#[test]
fn empty_request_is_a_usage_error() {
    let store = scenario_store();
    let req = Request { packages: vec![], info: false, list: false, quiet: false, search: None };
    assert_eq!(select_records(&store, &req), Err(SyncError::Usage));
}

#[test]
fn zero_matches_is_not_an_error() {
    let store = scenario_store();
    let r = select_records(&store, &req_search("zzzz")).unwrap();
    assert_eq!(r.len(), 0);
    let r = select_records(&store, &req_lookup(&["zzzz"])).unwrap();
    assert_eq!(r.len(), 0);
}

const DB: &str = "created_at,description,documentation,downloads,homepage,id,max_upload_size,name,readme,repository,updated_at\n\
2022-11-19 02:00:18.123456,first pkg,,1,,1,,alpha,,,raw\n\
2021-01-02 03:04:05.000000,,,2,,2,,beta,,,raw\n\
2020-06-07 08:09:10.111213,alpha clone,,3,,3,,gamma,,,raw\n";

#[test]
fn run_sync_list_search_and_lookup() {
    let data = DB.as_bytes();
    let r = run_sync(data, &req_list(true)).unwrap();
    assert_eq!(render_terse(&r), "alpha\nbeta\ngamma\n");
    let r = run_sync(data, &req_search("alpha")).unwrap();
    assert_eq!(names(&r), ["alpha", "gamma"]);
    let r = run_sync(data, &req_lookup(&["gamma", "zzz", "alpha"])).unwrap();
    assert_eq!(names(&r), ["gamma", "alpha"]);
}

#[test]
fn run_sync_reports_errors_before_reading_the_store() {
    let bad = b"not,a,package\ndatabase,,\n";
    assert_eq!(run_sync(bad, &req_search("(")), Err(SyncError::Pattern));
    let req = Request { packages: vec![], info: false, list: false, quiet: false, search: None };
    assert_eq!(run_sync(bad, &req), Err(SyncError::Usage));
    assert_eq!(run_sync(bad, &req_list(false)), Err(SyncError::Load(LoadError::Header)));
}

#[test]
fn repeated_runs_yield_identical_results() {
    let data = DB.as_bytes();
    let a = run_sync(data, &req_list(true)).unwrap();
    let b = run_sync(data, &req_list(true)).unwrap();
    assert_eq!(render_terse(&a), render_terse(&b));
    assert_eq!(a, b);
    let a = run_sync(data, &req_search("alpha")).unwrap();
    let b = run_sync(data, &req_search("alpha")).unwrap();
    assert_eq!(a, b);
}
