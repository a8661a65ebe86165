use envoy_exporter::envoy_reader::{
    EnvoyError, EnvoyReader, EnvoyStatus, Reply, INVERTERS_PATH, PRODUCTION_PATH,
};

fn body(text: &str) -> Reply {
    Reply::Body(text.as_bytes().to_vec())
}

const PRODUCTION: &str = r#"{"wattHoursLifetime":500,"wattHoursToday":20,"wattsNow":150}"#;
const INVERTERS: &str = r#"[{"serialNumber":"X1","lastReportWatts":75}]"#;

#[test]
fn new_status_is_offline_and_empty() {
    let status = EnvoyStatus::new();
    assert!(!status.online);
    assert_eq!(status.watt_hours_lifetime, 0);
    assert_eq!(status.watt_hours_today, 0);
    assert_eq!(status.watts_now, 0);
    assert!(status.inverters.is_empty());
    assert_eq!(status.inverter_watts("X1"), None);
}

#[test]
fn status_holds_the_numbers_of_both_replies() {
    let status = EnvoyReader::status(&body(PRODUCTION), &body(INVERTERS)).unwrap();
    assert!(status.online);
    assert_eq!(status.watt_hours_lifetime, 500);
    assert_eq!(status.watt_hours_today, 20);
    assert_eq!(status.watts_now, 150);
    assert_eq!(status.inverters.len(), 1);
    assert_eq!(status.inverters[0].serial_number, "X1");
    assert_eq!(status.inverters[0].last_report_watts, 75);
    assert_eq!(status.inverter_watts("X1"), Some(75));
    assert_eq!(status.inverter_watts("X2"), None);
}

#[test]
fn status_takes_numbers_without_conversion() {
    let production = format!(
        r#"{{"wattsNow":-7,"wattHoursToday":{},"wattHoursLifetime":{},"other":"ignored"}}"#,
        i64::MIN,
        i64::MAX
    );
    let status = EnvoyReader::status(&body(&production), &body("[]")).unwrap();
    assert_eq!(status.watt_hours_lifetime, i64::MAX);
    assert_eq!(status.watt_hours_today, i64::MIN);
    assert_eq!(status.watts_now, -7);
    assert!(status.inverters.is_empty());
}

#[test]
fn status_keeps_every_inverter_in_order() {
    let inverters = r#"[
        {"serialNumber":"B","lastReportWatts":2},
        {"serialNumber":"A","lastReportWatts":1},
        {"serialNumber":"C","lastReportWatts":-3}
    ]"#;
    let status = EnvoyReader::status(&body(PRODUCTION), &body(inverters)).unwrap();
    let held: Vec<(&str, i64)> = status
        .inverters
        .iter()
        .map(|r| (r.serial_number.as_str(), r.last_report_watts))
        .collect();
    assert_eq!(held, vec![("B", 2), ("A", 1), ("C", -3)]);
}

#[test]
fn duplicate_serial_number_last_one_wins() {
    let inverters = r#"[
        {"serialNumber":"X1","lastReportWatts":10},
        {"serialNumber":"X2","lastReportWatts":20},
        {"serialNumber":"X1","lastReportWatts":30}
    ]"#;
    let status = EnvoyReader::status(&body(PRODUCTION), &body(inverters)).unwrap();
    assert_eq!(status.inverters.len(), 2);
    assert_eq!(status.inverter_watts("X1"), Some(30));
    assert_eq!(status.inverter_watts("X2"), Some(20));
}

#[test]
fn unreachable_production_is_a_transport_error() {
    let res = EnvoyReader::status(&Reply::Unreachable, &body(INVERTERS));
    assert_eq!(res.unwrap_err(), EnvoyError::Transport);
}

#[test]
fn unreachable_inverters_is_a_transport_error() {
    let res = EnvoyReader::status(&body(PRODUCTION), &Reply::Unreachable);
    assert_eq!(res.unwrap_err(), EnvoyError::Transport);
}

#[test]
fn malformed_production_is_a_decode_error() {
    let res = EnvoyReader::status(&body("{\"wattsNow\":"), &body(INVERTERS));
    assert_eq!(res.unwrap_err(), EnvoyError::Decode);
}

#[test]
fn malformed_inverters_is_a_decode_error() {
    let res = EnvoyReader::status(&body(PRODUCTION), &body("<html>busy</html>"));
    assert_eq!(res.unwrap_err(), EnvoyError::Decode);
}

#[test]
fn empty_body_is_a_decode_error() {
    let res = EnvoyReader::status(&body(""), &body(INVERTERS));
    assert_eq!(res.unwrap_err(), EnvoyError::Decode);
}

#[test]
fn trailing_text_after_json_is_a_decode_error() {
    let res = EnvoyReader::status(&body(PRODUCTION), &body("[] []"));
    assert_eq!(res.unwrap_err(), EnvoyError::Decode);
}

#[test]
fn missing_production_field_is_a_schema_error() {
    let res = EnvoyReader::status(
        &body(r#"{"wattHoursLifetime":500,"wattHoursToday":20}"#),
        &body(INVERTERS),
    );
    assert_eq!(res.unwrap_err(), EnvoyError::Schema);
}

#[test]
fn non_integer_production_field_is_a_schema_error() {
    let cases = [
        r#"{"wattHoursLifetime":500,"wattHoursToday":20,"wattsNow":1.5}"#,
        r#"{"wattHoursLifetime":500,"wattHoursToday":20,"wattsNow":150.0}"#,
        r#"{"wattHoursLifetime":"500","wattHoursToday":20,"wattsNow":150}"#,
        r#"{"wattHoursLifetime":500,"wattHoursToday":null,"wattsNow":150}"#,
        r#"{"wattHoursLifetime":500,"wattHoursToday":20,"wattsNow":9223372036854775808}"#,
        r#"[500,20,150]"#,
        r#"150"#,
    ];
    for case in cases {
        let res = EnvoyReader::status(&body(case), &body(INVERTERS));
        assert_eq!(res.unwrap_err(), EnvoyError::Schema);
    }
}

#[test]
fn inverters_that_are_no_array_are_a_schema_error() {
    let res = EnvoyReader::status(
        &body(PRODUCTION),
        &body(r#"{"serialNumber":"X1","lastReportWatts":75}"#),
    );
    assert_eq!(res.unwrap_err(), EnvoyError::Schema);
}

#[test]
fn inverter_without_its_fields_is_a_schema_error() {
    let cases = [
        r#"[{"serialNumber":"X1"}]"#,
        r#"[{"lastReportWatts":75}]"#,
        r#"[{"serialNumber":17,"lastReportWatts":75}]"#,
        r#"[{"serialNumber":"X1","lastReportWatts":"75"}]"#,
        r#"[{"serialNumber":"X1","lastReportWatts":7.5}]"#,
        r#"[{"serialNumber":"X1","lastReportWatts":75},{"serialNumber":"X2"}]"#,
        r#"[75]"#,
    ];
    for case in cases {
        let res = EnvoyReader::status(&body(PRODUCTION), &body(case));
        assert_eq!(res.unwrap_err(), EnvoyError::Schema);
    }
}

#[test]
fn production_error_comes_before_inverter_error() {
    let res = EnvoyReader::status(&body("{}"), &Reply::Unreachable);
    assert_eq!(res.unwrap_err(), EnvoyError::Schema);
    let res = EnvoyReader::status(&body("nonsense"), &body("{}"));
    assert_eq!(res.unwrap_err(), EnvoyError::Decode);
    let res = EnvoyReader::status(&Reply::Unreachable, &body("nonsense"));
    assert_eq!(res.unwrap_err(), EnvoyError::Transport);
}

#[test]
fn reader_asks_for_production_then_inverters() {
    let mut reader = EnvoyReader::new("http://envoy.local", "envoy", "secret");
    let first = reader.request().unwrap();
    assert_eq!(first.url, "http://envoy.local/api/v1/production");
    assert_eq!(first.user, "envoy");
    assert_eq!(first.pass, "secret");
    assert!(first.digest);
    reader.receive(&body(PRODUCTION));
    let second = reader.request().unwrap();
    assert_eq!(second.url, "http://envoy.local/api/v1/production/inverters");
    assert_eq!(second.user, "envoy");
    assert_eq!(second.pass, "secret");
    assert!(second.digest);
    reader.receive(&body(INVERTERS));
    assert!(reader.request().is_none());
    let status = reader.finish().unwrap().unwrap();
    assert!(status.online);
    assert_eq!(status.watts_now, 150);
    assert_eq!(status.inverter_watts("X1"), Some(75));
}

#[test]
fn request_paths_are_the_two_api_paths() {
    assert_eq!(PRODUCTION_PATH, "/api/v1/production");
    assert_eq!(INVERTERS_PATH, "/api/v1/production/inverters");
}

#[test]
fn reader_stops_asking_after_a_failure() {
    let mut reader = EnvoyReader::new("http://envoy.local", "envoy", "secret");
    reader.receive(&Reply::Unreachable);
    assert!(reader.request().is_none());
    assert_eq!(reader.finish().unwrap().unwrap_err(), EnvoyError::Transport);
}

#[test]
fn reader_has_no_outcome_while_it_waits() {
    let reader = EnvoyReader::new("http://envoy.local", "envoy", "secret");
    assert!(reader.finish().is_none());
    let mut reader = EnvoyReader::new("http://envoy.local", "envoy", "secret");
    reader.receive(&body(PRODUCTION));
    assert!(reader.finish().is_none());
}

#[test]
fn reader_ignores_replies_once_the_poll_is_over() {
    let mut reader = EnvoyReader::new("", "", "");
    reader.receive(&body(PRODUCTION));
    reader.receive(&body(INVERTERS));
    reader.receive(&Reply::Unreachable);
    reader.receive(&body(r#"[{"serialNumber":"X9","lastReportWatts":1}]"#));
    let status = reader.finish().unwrap().unwrap();
    assert_eq!(status.inverters.len(), 1);
    assert_eq!(status.inverter_watts("X1"), Some(75));

    let mut reader = EnvoyReader::new("", "", "");
    reader.receive(&body("{}"));
    reader.receive(&body(INVERTERS));
    assert_eq!(reader.finish().unwrap().unwrap_err(), EnvoyError::Schema);
}

#[test]
fn failed_inverter_list_gives_no_partial_snapshot() {
    let mut reader = EnvoyReader::new("", "", "");
    reader.receive(&body(PRODUCTION));
    reader.receive(&body(r#"[{"serialNumber":"X1","lastReportWatts":75},{"serialNumber":"X2"}]"#));
    assert!(reader.request().is_none());
    assert_eq!(reader.finish().unwrap().unwrap_err(), EnvoyError::Schema);
}

#[test]
fn fetch_json_tells_the_three_cases_apart() {
    assert_eq!(EnvoyReader::fetch_json(&Reply::Unreachable).unwrap_err(), EnvoyError::Transport);
    assert_eq!(EnvoyReader::fetch_json(&body("{")).unwrap_err(), EnvoyError::Decode);
    let value = EnvoyReader::fetch_json(&body(r#"{"a":[1,2]}"#)).unwrap();
    assert_eq!(value["a"][1].as_i64(), Some(2));
}

#[test]
fn production_and_inverters_fill_the_reader() {
    let mut reader = EnvoyReader::new("", "", "");
    let summary = EnvoyReader::fetch_json(&body(PRODUCTION)).unwrap();
    let list = EnvoyReader::fetch_json(&body(INVERTERS)).unwrap();
    assert_eq!(reader.inverters(&summary), Err(EnvoyError::Schema));
    assert_eq!(reader.production(&list), Err(EnvoyError::Schema));
    assert_eq!(reader.production(&summary), Ok(()));
    assert_eq!(reader.inverters(&list), Ok(()));
}

#[test]
fn record_inverter_replaces_in_place() {
    let mut status = EnvoyStatus::new();
    status.record_inverter("X1".to_string(), 10);
    status.record_inverter("X2".to_string(), 20);
    status.record_inverter("X1".to_string(), 30);
    assert_eq!(status.inverters.len(), 2);
    assert_eq!(status.inverter_watts("X1"), Some(30));
    assert_eq!(status.inverter_watts("X2"), Some(20));
    assert_eq!(status.inverter_watts(""), None);
}

#[test]
fn error_messages_name_the_cause() {
    assert_eq!(EnvoyError::Transport.message(), "the device could not be reached");
    assert_eq!(EnvoyError::Decode.message(), "the reply is not valid JSON");
    assert_eq!(EnvoyError::Schema.message(), "the reply lacks an expected field");
}
