use ushcn::decimal::Decimal;
use ushcn::file_properties::{Dataset, Element, FileProperties};
use ushcn::ingest::{decode_daily_lines, decode_monthly_lines, group_by_dataset};
use ushcn::monthly::MonthlyReading;

#[test]
fn daily_ingestion_skips_and_counts_failures() {
    let lines = vec![
        // kept: interesting element, decodes
        "USC00011084192601TMAX  100  6  -50  6".to_string(),
        // dropped silently: uninteresting element
        "USC00011084192601TOBS  100  6".to_string(),
        // failed: header year is not numeric
        "USC00011084xxxx01TMAX  100  6".to_string(),
        // kept again
        "USC00011084192602PRCP   17  6".to_string(),
        // failed: too short for the header
        "USC0001".to_string(),
    ];
    let (readings, failed) = decode_daily_lines(&lines);
    assert_eq!(readings.len(), 2);
    assert_eq!(failed, 2);
    assert_eq!(readings[0].properties.element, Element::Tmax);
    assert_eq!(readings[0].values[0], Some(Decimal::from_tenths(100)));
    assert_eq!(readings[1].properties.element, Element::Prcp);
    assert_eq!(readings[1].month, Some(2));
}

#[test]
fn monthly_ingestion_keeps_interesting_files_only() {
    let lines = vec![
        "USH0048961511894   517a     377a    1096d    1640b    2231     2485a   -9999     2938    -9999    -9999    -9999    -9999    -9999   ".to_string(),
        "USH004".to_string(),
    ];
    let (readings, failed) = decode_monthly_lines(&lines, "USH00297610.raw.tmax");
    assert_eq!(readings.len(), 1);
    assert_eq!(failed, 1);
    assert_eq!(readings[0].properties.dataset, Dataset::Raw);
    assert_eq!(readings[0].properties.element, Element::Max);

    // a file whose name yields no interesting element contributes nothing
    let (none_kept, failed2) = decode_monthly_lines(&lines, "unknown.file");
    assert_eq!(none_kept.len(), 0);
    assert_eq!(failed2, 1);
}

fn monthly_with(dataset: Dataset, id: &str) -> MonthlyReading {
    MonthlyReading {
        id: id.to_string(),
        lat: None,
        lon: None,
        year: 1894,
        month: None,
        properties: FileProperties { dataset, element: Element::Max },
        values: vec![None; 12],
    }
}

#[test]
fn grouping_splits_by_dataset_in_order() {
    let readings = vec![
        monthly_with(Dataset::Raw, "A"),
        monthly_with(Dataset::Tob, "B"),
        monthly_with(Dataset::Raw, "C"),
        monthly_with(Dataset::Fls52, "D"),
        monthly_with(Dataset::Unknown, "E"),
    ];
    let groups = group_by_dataset(readings);
    assert_eq!(groups.raw.len(), 2);
    assert_eq!(groups.raw[0].id, "A");
    assert_eq!(groups.raw[1].id, "C");
    assert_eq!(groups.tob.len(), 1);
    assert_eq!(groups.tob[0].id, "B");
    assert_eq!(groups.fls52.len(), 1);
    assert_eq!(groups.unknown.len(), 1);
}
