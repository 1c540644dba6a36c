use ushcn::daily::DailyReading;
use ushcn::decimal::Decimal;
use ushcn::file_properties::Element;
use ushcn::reading::DecodeError;

#[test]
fn daily_should_parse_line() {
    let line = "USC00011084192601TOBS-9999   -9999   -9999   -9999   -9999   -9999   -9999   -9999   -9999   -9999   -9999   -9999   -9999   -9999   -9999   -9999   -9999   -9999   -9999   -9999     217  6   28  6   39  6   44  6  100  6  106  6  117  6  106  6  128  6   94  6  189  6";
    let reading = DailyReading::from_line(line, "").unwrap();

    assert_eq!(reading.id, "USC00011084");
    assert_eq!(reading.year, 1926);
    assert_eq!(reading.month, Some(1));
    assert_eq!(reading.properties.element, Element::Unknown);
    assert_eq!(reading.values.len(), 31);
    assert_eq!(reading.values[0], None);
    assert_eq!(reading.values[30], Some(Decimal::from_tenths(189)));
}

#[test]
fn sentinel_filled_line_keeps_only_trailing_slot() {
    // every slot is the -9999 sentinel except the last, which holds 217,
    // i.e. 21.7 in tenths
    let mut line = String::from("USC00011084192601TOBS");
    for _ in 0..30 {
        line.push_str("-9999   ");
    }
    line.push_str("  217  6");
    let reading = DailyReading::from_line(&line, "").unwrap();

    assert_eq!(reading.id, "USC00011084");
    assert_eq!(reading.year, 1926);
    assert_eq!(reading.month, Some(1));
    assert_eq!(reading.values.len(), 31);
    for day in 0..30 {
        assert_eq!(reading.values[day], None);
    }
    assert_eq!(reading.values[30], Some(Decimal::from_tenths(217)));
}

#[test]
fn short_line_fills_missing_trailing_slots() {
    // header plus two full slots only: the rest resolve to missing
    let line = "USC00011084192601TMAX  100  6  -50  6";
    let reading = DailyReading::from_line(line, "").unwrap();

    assert_eq!(reading.properties.element, Element::Tmax);
    assert_eq!(reading.values.len(), 31);
    assert_eq!(reading.values[0], Some(Decimal::from_tenths(100)));
    assert_eq!(reading.values[1], Some(Decimal::from_tenths(-50)));
    for day in 2..31 {
        assert_eq!(reading.values[day], None);
    }
}

#[test]
fn daily_element_code_ignores_case() {
    let line = "USC00011084192601prcp  100  6";
    let reading = DailyReading::from_line(line, "").unwrap();
    assert_eq!(reading.properties.element, Element::Prcp);
    assert!(reading.is_valid());
}

#[test]
fn daily_header_too_short_is_malformed() {
    assert_eq!(
        DailyReading::from_line("USC0001", "").unwrap_err(),
        DecodeError::MalformedRecord { from: 0, to: 11 }
    );
    assert_eq!(
        DailyReading::from_line("USC00011084192", "").unwrap_err(),
        DecodeError::MalformedRecord { from: 11, to: 15 }
    );
    assert_eq!(
        DailyReading::from_line("USC00011084192601TO", "").unwrap_err(),
        DecodeError::MalformedRecord { from: 17, to: 21 }
    );
}

#[test]
fn daily_bad_year_is_malformed() {
    assert_eq!(
        DailyReading::from_line("USC0001108419x601TOBS", "").unwrap_err(),
        DecodeError::MalformedRecord { from: 11, to: 15 }
    );
    assert_eq!(
        DailyReading::from_line("USC000110841926xxTOBS", "").unwrap_err(),
        DecodeError::MalformedRecord { from: 15, to: 17 }
    );
}
