use ushcn::decimal::Decimal;
use ushcn::monthly::MonthlyReading;
use ushcn::reading::DecodeError;

#[test]
fn monthly_should_parse_line() {
    let line = "USH0048961511894   517a     377a    1096d    1640b    2231     2485a   -9999     2938    -9999    -9999    -9999    -9999    -9999   ";

    let filename = "USH00297610.raw.tmax";

    let reading = MonthlyReading::from_line(line, filename).unwrap();

    assert_eq!(reading.id, "USH00489615");
    assert_eq!(reading.year, 1894);
    assert_eq!(reading.values.len(), 12);
    assert_eq!(reading.values[0], Some(Decimal::from_hundredths(517)));
    assert_eq!(reading.values[7], Some(Decimal::from_hundredths(2938)));
    assert_eq!(reading.values[11], None);

    println!("{:#?}", reading.values);
}

#[test]
fn should_parse_short_line() {
    let line = "USH0045726711892 -9999      532    -9999    -9999 Q   1869b    2209     2481     2734     2233     1711      777  3   -50  3";

    let filename = "USH00297610.raw.tmax";

    let reading = MonthlyReading::from_line(line, filename).unwrap();

    assert_eq!(reading.id, "USH00457267");
    assert_eq!(reading.year, 1892);
    assert_eq!(reading.values.len(), 12);
    assert_eq!(reading.values[0], None);
    assert_eq!(reading.values[7], Some(Decimal::from_hundredths(2734)));
    assert_eq!(reading.values[11], Some(Decimal::from_hundredths(-50)));

    println!("{:#?}", reading.values);
}

#[test]
fn monthly_header_too_short_is_malformed() {
    assert_eq!(
        MonthlyReading::from_line("USH004", "USH00297610.raw.tmax").unwrap_err(),
        DecodeError::MalformedRecord { from: 0, to: 11 }
    );
    assert_eq!(
        MonthlyReading::from_line("USH004572671189", "USH00297610.raw.tmax").unwrap_err(),
        DecodeError::MalformedRecord { from: 12, to: 16 }
    );
}

#[test]
fn monthly_month_field_stays_empty() {
    let line = "USH0045726711892 -9999      532     1000     2000     1869     2209     2481     2734     2233     1711      777      -50  ";
    let reading = MonthlyReading::from_line(line, "USH00297610.tob.tmin").unwrap();
    assert_eq!(reading.month, None);
    assert_eq!(reading.lat, None);
    assert_eq!(reading.lon, None);
}
