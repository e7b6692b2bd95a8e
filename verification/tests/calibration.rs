use deimos::datetime::UtcTime;
use deimos::peripheral::calibration::{
    cal_path, cal_url, check_body, check_response, default_cal_store, fetch_error, query_cals,
    validate_cal_slug, write_done, CacheWrite, CalAction, CalQuery, CalRecordCore, FetchFailure,
    LocalRead, RemoteCalError, CURRENT_CAL_SCHEMA_VERSION, MAX_CAL_JSON_BYTES,
};

const SLUG: &str = "deimos_daq_rev7/sn-12";
const URL: &str = "https://deimoscontrols.com/records/deimos_daq_rev7/sn-12/cal.json";

fn query(home: Option<&str>, sources: &[&str], offline_only: bool) -> CalQuery {
    let sources: Vec<String> = sources.iter().map(|s| s.to_string()).collect();
    query_cals(SLUG, home.map(str::to_owned), &sources, offline_only).unwrap()
}

#[test]
fn slugs_are_split_and_checked() {
    assert_eq!(validate_cal_slug(SLUG).unwrap(), ["deimos_daq_rev7", "sn-12"]);
    for slug in ["", "/", "a//b", "../a", "a/..", "a/./b", "/a", "a/"] {
        let error = validate_cal_slug(slug).unwrap_err();
        assert!(error.contains("invalid segment"), "{slug}: {error}");
    }
    for slug in ["a b", "a\\b", "a.b", "é"] {
        let error = validate_cal_slug(slug).unwrap_err();
        assert!(error.contains("unsupported characters"), "{slug}: {error}");
    }
    assert!(query_cals("..", None, &[], true).is_err());
}

#[test]
fn records_stand_under_their_slug() {
    let segments = validate_cal_slug(SLUG).unwrap();
    assert_eq!(cal_path("/store", &segments), "/store/deimos_daq_rev7/sn-12/cal.json");
    assert_eq!(cal_path("/store/", &segments), "/store/deimos_daq_rev7/sn-12/cal.json");
    assert_eq!(cal_url(&segments), URL);
    assert_eq!(default_cal_store("/home/op"), "/home/op/.deimos/records");
}

#[test]
fn stores_are_searched_in_order_before_the_network() {
    let mut q = query(Some("/home/op"), &["/a", "/b"], false);
    let mut read = Vec::new();
    loop {
        match q.next_action() {
            CalAction::Read { path } => {
                read.push(path);
                assert!(q.read_done(LocalRead::NotFound).is_none());
            }
            CalAction::Fetch { url } => {
                assert_eq!(url, URL);
                break;
            }
            other => panic!("{other:?}"),
        }
    }
    assert_eq!(
        read,
        [
            "/home/op/.deimos/records/deimos_daq_rev7/sn-12/cal.json",
            "/a/deimos_daq_rev7/sn-12/cal.json",
            "/b/deimos_daq_rev7/sn-12/cal.json",
        ]
    );
}

#[test]
fn cached_record_is_read_first_and_ends_the_search() {
    let mut q = query(Some("/home/op"), &["/a"], false);
    match q.read_done(LocalRead::Found("{}".to_owned())) {
        Some(CalAction::Done(Ok(Some(cals)))) => assert_eq!(cals, "{}"),
        other => panic!("{other:?}"),
    }
    match q.read_done(LocalRead::Failed("denied".to_owned())) {
        Some(CalAction::Done(Err(error))) => assert_eq!(
            error,
            "Failed to read /home/op/.deimos/records/deimos_daq_rev7/sn-12/cal.json: denied"
        ),
        other => panic!("{other:?}"),
    }
}

#[test]
fn offline_search_ends_without_a_record() {
    let q = query(None, &[], true);
    assert!(matches!(q.next_action(), CalAction::Done(Ok(None))));
}

#[test]
fn fetched_records_are_cached() {
    let q = query(Some("/home/op"), &[], false);
    match q.fetched(Ok(Some("{}".to_owned()))) {
        CalAction::Write { parent, path, cals } => {
            assert_eq!(parent, "/home/op/.deimos/records/deimos_daq_rev7/sn-12");
            assert_eq!(path, "/home/op/.deimos/records/deimos_daq_rev7/sn-12/cal.json");
            assert_eq!(
                write_done(&parent, &path, cals, CacheWrite::Written),
                Ok(Some("{}".to_owned()))
            );
        }
        other => panic!("{other:?}"),
    }
    assert!(matches!(q.fetched(Ok(None)), CalAction::Done(Ok(None))));
    let transport = RemoteCalError::transport("down".to_owned());
    assert!(matches!(q.fetched(Err(transport)), CalAction::Done(Ok(None))));
    let unexpected = RemoteCalError::unexpected("odd".to_owned());
    assert!(matches!(q.fetched(Err(unexpected)), CalAction::Done(Err(e)) if e == "odd"));
    let homeless = query(None, &[], false);
    assert!(matches!(
        homeless.fetched(Ok(Some("{}".to_owned()))),
        CalAction::Done(Err(e)) if e == "Unable to determine home directory for calibration cache"
    ));
}

#[test]
fn cache_failures_name_what_failed() {
    assert_eq!(
        write_done("/p", "/p/x", "{}".to_owned(), CacheWrite::CreateFailed("e".to_owned())),
        Err("Failed to create /p: e".to_owned())
    );
    assert_eq!(
        write_done("/p", "/p/x", "{}".to_owned(), CacheWrite::WriteFailed("e".to_owned())),
        Err("Failed to write /p/x: e".to_owned())
    );
}

#[test]
fn responses_are_checked() {
    assert_eq!(check_response(URL, 200, "200 OK", Some(10)).ok(), Some(true));
    assert_eq!(check_response(URL, 200, "200 OK", None).ok(), Some(true));
    assert_eq!(check_response(URL, 404, "404 Not Found", None).ok(), Some(false));
    let error = check_response(URL, 500, "500 Internal Server Error", None).unwrap_err();
    assert!(error.message.contains("500"));
    let error = check_response(URL, 200, "200 OK", Some(MAX_CAL_JSON_BYTES + 1)).unwrap_err();
    assert!(!error.is_transport_failure);
    assert!(check_response(URL, 200, "200 OK", Some(MAX_CAL_JSON_BYTES)).is_ok());
    assert_eq!(
        check_body(URL, 2, Ok("{}".to_owned())).ok().as_deref(),
        Some("{}")
    );
    assert!(check_body(URL, MAX_CAL_JSON_BYTES + 1, Ok("{}".to_owned())).is_err());
    assert!(check_body(URL, 2, Err("not text".to_owned())).is_err());
}

#[test]
fn fetch_failures_are_told_apart() {
    let send = fetch_error(URL, FetchFailure::Send("timed out".to_owned()));
    assert!(send.is_transport_failure);
    assert_eq!(
        send.message,
        format!("Failed to fetch calibration record from {URL}: timed out")
    );
    let client = fetch_error(URL, FetchFailure::Client("no tls".to_owned()));
    assert!(!client.is_transport_failure);
    let body = fetch_error(URL, FetchFailure::Body("cut".to_owned()));
    assert_eq!(
        body.message,
        format!("Failed to read calibration record from {URL}: cut")
    );
}

#[test]
fn record_core_carries_its_time_stamp() {
    let core = CalRecordCore::new(
        "DeimosDaqRev7".to_owned(),
        7,
        12,
        "7.0.0".to_owned(),
        1,
        vec!["Fluke 707".to_owned()],
        UtcTime { secs: 0, nanos: 5 },
    );
    assert_eq!(core.schema_version, CURRENT_CAL_SCHEMA_VERSION);
    assert_eq!(core.serial_number, 12);
    assert!(core.generated_at_utc.starts_with("1970-01-01T00:00:00"));
}
