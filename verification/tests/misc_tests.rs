use upward::config::check_status;
use upward::labels::{axis_labels, middle_label, whole_label, Y_MAX, Y_MIN};
use upward::render_loop::{Input, Step, Ticker};
use upward::{Config, UpwardError};

fn some(s: &str) -> Option<String> {
    Some(s.to_string())
}

#[test]
fn config_reports_the_first_missing_key() {
    let c = Config::from_values(some("u"), some("o"), some("i"), some("t"), some("b")).unwrap();
    assert_eq!((c.server_url.as_str(), c.org.as_str(), c.org_id.as_str()), ("u", "o", "i"));
    assert_eq!((c.token.as_str(), c.bucket.as_str()), ("t", "b"));
    let missing = |r: Result<Config, UpwardError>| match r {
        Err(UpwardError::MissingKey(k)) => k,
        other => panic!("{other:?}"),
    };
    assert_eq!(missing(Config::from_values(None, None, None, None, None)), "SERVER_URL");
    assert_eq!(missing(Config::from_values(some("u"), None, None, some("t"), None)), "ORG");
    assert_eq!(missing(Config::from_values(some("u"), some("o"), None, None, None)), "ORGID");
    assert_eq!(
        missing(Config::from_values(some("u"), some("o"), some("i"), None, None)),
        "INFLUX_AUTH_TOKEN"
    );
    assert_eq!(missing(Config::from_values(some("u"), some("o"), some("i"), some("t"), None)), "BUCKET");
}

#[test]
fn config_builds_the_request() {
    let c = Config::from_values(some("http://h"), some("o"), some("42"), some("tok"), some("bk")).unwrap();
    assert_eq!(
        c.query(),
        "from(bucket: \"bk\") |> range(start: -1h) |> filter(fn: (r) => r.isin ==\"CA94947L1022\")"
    );
    assert_eq!(c.request_url(), "http://h/api/v2/query\\?orgID=42");
    assert_eq!(c.authorization(), "Token tok");
}

#[test]
fn errors_describe_themselves() {
    assert_eq!(
        UpwardError::MissingKey("BUCKET".to_string()).message(),
        "the API for key `BUCKET` is not available"
    );
    assert_eq!(UpwardError::Unknown.message(), "unknown data store error");
    assert_eq!(check_status(200), Ok(()));
    assert_eq!(check_status(299), Ok(()));
    assert_eq!(check_status(199), Err(UpwardError::Unknown));
    assert_eq!(check_status(300), Err(UpwardError::Unknown));
    assert_eq!(check_status(404), Err(UpwardError::Unknown));
}

#[test]
fn labels_match_float_formatting() {
    let l = axis_labels(0, 20);
    assert_eq!((l.low.as_str(), l.middle.as_str(), l.high.as_str()), ("0", "10", "20"));
    let l = axis_labels(Y_MIN, Y_MAX);
    assert_eq!((l.low.as_str(), l.middle.as_str(), l.high.as_str()), ("-20", "0", "20"));
    for (lo, hi) in [(0i64, 20i64), (1, 21), (0, 1), (-1, 0), (-3, 0), (-7, -2), (5, 5), (100, 1023), (-1000, 999)] {
        assert_eq!(whole_label(lo), format!("{}", lo as f64));
        assert_eq!(whole_label(hi), format!("{}", hi as f64));
        assert_eq!(middle_label(lo, hi), format!("{}", (lo as f64 + hi as f64) / 2.0));
    }
    assert_eq!(whole_label(i64::MIN), "-9223372036854775808");
    assert_eq!(whole_label(i64::MAX), "9223372036854775807");
    assert_eq!(middle_label(i64::MAX, i64::MAX), "9223372036854775807");
    assert_eq!(middle_label(i64::MIN, i64::MIN), "-9223372036854775808");
    assert_eq!(middle_label(i64::MIN, i64::MAX), "-0.5");
}

#[test]
fn ticker_decides_the_loop() {
    let mut t = Ticker::new(250, 1_000);
    assert_eq!(t.timeout(1_000), 250);
    assert_eq!(t.timeout(1_100), 150);
    assert_eq!(t.timeout(1_250), 0);
    assert_eq!(t.timeout(9_000), 0);
    assert_eq!(t.timeout(500), 250);
    assert_eq!(t.step(Input::Idle, 1_100), Step::Wait);
    assert_eq!(t.last_tick, 1_000);
    assert_eq!(t.step(Input::Key('x'), 1_249), Step::Wait);
    assert_eq!(t.step(Input::Other, 1_250), Step::Tick);
    assert_eq!(t.last_tick, 1_250);
    assert_eq!(t.step(Input::Key('q'), 9_000), Step::Quit);
    assert_eq!(t.last_tick, 1_250);
    assert_eq!(t.step(Input::Key('Q'), 9_000), Step::Tick);
    assert_eq!(t.last_tick, 9_000);
}
