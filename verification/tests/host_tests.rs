use pocketjs_kobo::host::{SimHzError, boot_clock, parse_sim_hz};
use pocketjs_kobo::net::{NetErrorCode, TransportKind, chunk_fits, classify_kind};

#[test]
fn the_simulation_rate_must_divide_the_core_tick_rate() {
    for hz in [1, 2, 3, 4, 5, 6, 10, 12, 15, 20, 30, 60] {
        assert_eq!(parse_sim_hz(&hz.to_string()).unwrap(), hz);
    }
    for hz in ["0", "7", "45", "61"] {
        let error = parse_sim_hz(hz).unwrap_err().message();
        assert!(error.contains("must divide 60 exactly"), "{hz}: {error}");
    }
    assert!(parse_sim_hz("nope").is_err());
}

#[test]
fn sim_rate_errors_tell_a_bad_number_from_a_bad_rate() {
    assert_eq!(parse_sim_hz("nope"), Err(SimHzError::NotAnInteger));
    assert_eq!(parse_sim_hz("-5"), Err(SimHzError::NotAnInteger));
    assert_eq!(parse_sim_hz(""), Err(SimHzError::NotAnInteger));
    assert_eq!(parse_sim_hz("+30"), Ok(30));
    assert_eq!(parse_sim_hz("7"), Err(SimHzError::DoesNotDivide(7)));
    assert_eq!(
        SimHzError::NotAnInteger.message(),
        "--sim-hz must be an integer"
    );
    assert!(SimHzError::DoesNotDivide(7).message().ends_with("got 7"));
}

#[test]
fn the_boot_clock_counts_from_the_calendar() {
    let c = boot_clock(126, 8, 5, 5, 9, 45, 0);
    assert_eq!((c.year, c.month, c.day, c.weekday), (2026, 9, 5, 5));
    assert_eq!(c.second_of_day, 35100);
}

#[test]
fn transport_failures_map_to_portable_codes() {
    assert_eq!(classify_kind(TransportKind::Dns, "x"), NetErrorCode::Dns);
    assert_eq!(
        classify_kind(TransportKind::Io, "Network Error: connection Timed Out"),
        NetErrorCode::Timeout
    );
    assert_eq!(
        classify_kind(TransportKind::Io, "read TIMEOUT"),
        NetErrorCode::Timeout
    );
    assert_eq!(
        classify_kind(TransportKind::Io, "connection reset"),
        NetErrorCode::Connect
    );
    assert_eq!(
        classify_kind(TransportKind::InsecureRequestHttpsOnly, ""),
        NetErrorCode::Tls
    );
    assert_eq!(
        classify_kind(TransportKind::BadHeader, ""),
        NetErrorCode::InvalidRequest
    );
    assert_eq!(classify_kind(TransportKind::Http, ""), NetErrorCode::Protocol);
    assert_eq!(
        classify_kind(TransportKind::TooManyRedirects, ""),
        NetErrorCode::Redirect
    );
    assert_eq!(
        classify_kind(TransportKind::ProxyUnauthorized, ""),
        NetErrorCode::Connect
    );
}

#[test]
fn a_body_past_its_limit_is_refused() {
    assert!(chunk_fits(10, 6, 16));
    assert!(!chunk_fits(10, 7, 16));
}
