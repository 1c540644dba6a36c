use ushcn::decimal::Decimal;
use ushcn::reading::DecodeError;
use ushcn::station::{parse_and_filter, parse_station_lines, parse_str, Dialect, Station};

#[test]
fn should_process_ushcn_line() {
    let line =
        "USH00011084  31.0581  -87.0547   25.9 AL BREWTON 3 SSE                  ------ ------ ------ +6";
    let s = Station::from_ushcn_line(line).unwrap();

    assert_eq!(s.country_code, "US");
    assert_eq!(s.network_code, "H");
    assert_eq!(s.id_placeholder, "00");
    assert_eq!(s.coop_id, "011084");
    assert_eq!(s.latitude, Some(Decimal::from_e4(310581)));
    assert_eq!(s.longitude, Some(Decimal::from_e4(-870547)));
    assert_eq!(s.elevation, Some(Decimal::from_e4(259000)));
    assert_eq!(s.state, Some("AL".to_string()));
    assert_eq!(s.name, "BREWTON 3 SSE".to_string());
}

#[test]
fn should_process_ghcn_line() {
    let line =
        "USC00437054  44.4200  -72.0194  213.4 VT SAINT JOHNSBURY                    HCN 72614";
    let s = Station::from_ghcn_line(line).unwrap();

    assert_eq!(s.country_code, "US");
    assert_eq!(s.network_code, "C");
    assert_eq!(s.id_placeholder, "00");
    assert_eq!(s.coop_id, "437054");
    assert_eq!(s.latitude, Some(Decimal::from_e4(444200)));
    assert_eq!(s.longitude, Some(Decimal::from_e4(-720194)));
    assert_eq!(s.elevation, Some(Decimal::from_e4(2134000)));
    assert_eq!(s.state, Some("VT".to_string()));
    assert_eq!(s.name, "SAINT JOHNSBURY".to_string());
}

#[test]
fn should_parse_f64() {
    let s = "  44.4200";
    let f = parse_and_filter(s).unwrap();
    assert_eq!(f, Decimal::from_e4(444200));
}

#[test]
fn should_filter_999() {
    let s = " -999.9 ";
    let f = parse_and_filter(s);
    assert!(f.is_none());
}

#[test]
fn should_make_ushcn_station_id() {
    let line =
        "USH00011084  31.0581  -87.0547   25.9 AL BREWTON 3 SSE                  ------ ------ ------ +6";
    let s = Station::from_ushcn_line(line).unwrap();

    assert_eq!(s.station_id(), "USH00011084");
}

#[test]
fn should_make_ghcn_station_id() {
    let line =
        "USC00437054  44.4200  -72.0194  213.4 VT SAINT JOHNSBURY                    HCN 72614";
    let s = Station::from_ghcn_line(line).unwrap();

    assert_eq!(s.station_id(), "USC00437054");
}

#[test]
fn dialects_shift_the_latitude_window() {
    // characters 11..20 hold "123.4567 ": the GHCN dialect reads all of
    // it, the USHCN dialect starts one character later
    let mut line = String::from("USH00011084");
    line.push_str("123.4567 ");
    while line.len() < 71 {
        line.push(' ');
    }
    let ghcn = Station::from_ghcn_line(&line).unwrap();
    let ushcn = Station::from_ushcn_line(&line).unwrap();
    assert_eq!(ghcn.latitude, Some(Decimal::from_e4(1234567)));
    assert_eq!(ushcn.latitude, Some(Decimal::from_e4(234567)));
    assert_eq!(ghcn.country_code, ushcn.country_code);
    assert_eq!(ghcn.coop_id, ushcn.coop_id);
}

#[test]
fn parse_str_trims_and_drops_empty() {
    assert_eq!(parse_str(" AL "), Some("AL".to_string()));
    assert_eq!(parse_str("   "), None);
    assert_eq!(parse_str(""), None);
}

#[test]
fn default_station_is_empty() {
    let s = Station::default();
    assert_eq!(s.country_code, "");
    assert_eq!(s.latitude, None);
    assert_eq!(s.longitude, None);
    assert_eq!(s.elevation, None);
    assert_eq!(s.state, None);
    assert_eq!(s.name, "");
}

#[test]
fn station_list_fails_on_first_short_line() {
    let good =
        "USH00011084  31.0581  -87.0547   25.9 AL BREWTON 3 SSE                  ------ ------ ------ +6";
    let lines = vec![good.to_string(), "too short".to_string(), good.to_string()];
    let r = parse_station_lines(&lines, Dialect::Ushcn);
    // "too short" is nine characters: the cooperative id field cannot be sliced
    assert_eq!(r.unwrap_err(), DecodeError::MalformedRecord { from: 5, to: 11 });

    let ok = parse_station_lines(&vec![good.to_string(), good.to_string()], Dialect::Ushcn)
        .unwrap();
    assert_eq!(ok.len(), 2);
    assert_eq!(ok[1].name, "BREWTON 3 SSE");
}
