use std::sync::Arc;

use arrow_array::builder::{Date32Builder, Float32Builder, StringBuilder};
use arrow_array::{Array, RecordBatch, StringArray};
use arrow_schema::{DataType, Field, Schema};
use parquet::arrow::arrow_reader::ParquetRecordBatchReaderBuilder;
use parquet::arrow::ArrowWriter;
use tempfile::NamedTempFile;

use ushcn::daily::DailyReading;
use ushcn::date::date32_from_ymd;
use ushcn::decimal::Decimal;
use ushcn::file_properties::{element_to_string, Dataset, Element, FileProperties};
use ushcn::monthly::MonthlyReading;
use ushcn::rows::{batch_bounds, expand_daily_long, expand_daily_wide, expand_monthly_wide};

fn daily_reading(element: Element, base_tenths: i64) -> DailyReading {
    let mut values = vec![];
    for v in 0..31 {
        values.push(Some(Decimal::from_tenths(base_tenths + v)));
    }
    DailyReading {
        id: "USW00094728".to_string(),
        lat: Some(Decimal::from_e4(600000)),
        lon: Some(Decimal::from_e4(-1500000)),
        year: 2019,
        month: Some(1),
        properties: FileProperties { dataset: Dataset::Unknown, element },
        values,
    }
}

fn comprehensive_fixture() -> Vec<DailyReading> {
    vec![
        daily_reading(Element::Tmax, 100),
        daily_reading(Element::Tmin, 50),
        daily_reading(Element::Prcp, 10),
    ]
}

#[test]
fn date32_matches_known_days() {
    assert_eq!(date32_from_ymd(1970, 1, 1), Some(0));
    assert_eq!(date32_from_ymd(2019, 1, 1), Some(17897));
    assert_eq!(date32_from_ymd(2020, 2, 29), Some(18321));
    assert_eq!(date32_from_ymd(2019, 2, 29), None);
    assert_eq!(date32_from_ymd(2019, 4, 31), None);
    assert_eq!(date32_from_ymd(2019, 0, 1), None);
    assert_eq!(date32_from_ymd(2019, 13, 1), None);
}

#[test]
fn long_rows_keep_only_present_slots() {
    let mut readings = comprehensive_fixture();
    // blank out two slots of the first reading and leave a sentinel-like gap
    readings[0].values[3] = None;
    readings[0].values[10] = None;
    let rows = expand_daily_long(&readings);
    assert_eq!(rows.len(), 91);
    assert_eq!(rows[0].id, "USW00094728");
    assert_eq!(rows[0].date, Some(17897));
    assert_eq!(rows[0].element, Element::Tmax);
    assert_eq!(rows[0].value, Decimal::from_tenths(100));
    // slot 4 was blanked: the fourth row of the first reading is day 5
    assert_eq!(rows[3].date, Some(17897 + 4));
}

#[test]
fn long_rows_keep_days_outside_the_calendar_with_no_date() {
    // February 2019 had 28 days: slots 29..31 still expand to one row
    // each, carrying their value under a missing date
    let mut reading = daily_reading(Element::Tmax, 100);
    reading.month = Some(2);
    let rows = expand_daily_long(&vec![reading]);
    assert_eq!(rows.len(), 31);
    assert_eq!(rows[27].date, date32_from_ymd(2019, 2, 28));
    assert_eq!(rows[28].date, None);
    assert_eq!(rows[28].value, Decimal::from_tenths(128));
    assert_eq!(rows[30].date, None);
}

#[test]
fn wide_rows_are_dense_and_mostly_null() {
    let readings = comprehensive_fixture();
    let rows = expand_daily_wide(&readings);
    assert_eq!(rows.len(), 93);
    let mut nulls = 0;
    let mut cells = 0;
    for row in &rows {
        for cell in [row.tmax, row.tmin, row.prcp] {
            cells += 1;
            if cell.is_none() {
                nulls += 1;
            }
        }
    }
    // each row populates at most one element column: at least 2/3 null
    assert_eq!(cells, 279);
    assert_eq!(nulls, 186);
    assert!(nulls * 3 >= 2 * cells);
    assert_eq!(rows[0].tmax, Some(Decimal::from_tenths(100)));
    assert_eq!(rows[0].tmin, None);
    assert_eq!(rows[0].prcp, None);
    assert_eq!(rows[31].tmin, Some(Decimal::from_tenths(50)));
}

#[test]
fn monthly_wide_rows_fill_one_column() {
    let reading = MonthlyReading {
        id: "USH00489615".to_string(),
        lat: None,
        lon: None,
        year: 2019,
        month: None,
        properties: FileProperties { dataset: Dataset::Tob, element: Element::Min },
        values: vec![Some(Decimal::from_hundredths(517)); 12],
    };
    let rows = expand_monthly_wide(&vec![reading]);
    assert_eq!(rows.len(), 12);
    for (m, row) in rows.iter().enumerate() {
        assert_eq!(row.id, "USH00489615");
        assert_eq!(row.date, date32_from_ymd(2019, m as u32 + 1, 1));
        assert_eq!(row.min_tob, Some(Decimal::from_hundredths(517)));
        assert_eq!(row.max_raw, None);
        assert_eq!(row.max_tob, None);
        assert_eq!(row.max_fls52, None);
        assert_eq!(row.min_raw, None);
        assert_eq!(row.min_fls52, None);
        assert_eq!(row.avg_raw, None);
        assert_eq!(row.avg_tob, None);
        assert_eq!(row.avg_fls52, None);
    }
}

#[test]
fn batch_bounds_tile_the_rows() {
    assert_eq!(batch_bounds(0, 100), vec![]);
    assert_eq!(batch_bounds(50, 100), vec![(0, 50)]);
    assert_eq!(batch_bounds(250, 100), vec![(0, 100), (100, 200), (200, 250)]);
    assert_eq!(batch_bounds(200, 100), vec![(0, 100), (100, 200)]);
}

#[test]
fn should_validate_new_long_format_schema_and_data() {
    // write the long layout, chunked, through the columnar writer, then
    // read it back and check schema, null-freedom and the element counts
    let readings = comprehensive_fixture();
    let rows = expand_daily_long(&readings);
    assert_eq!(rows.len(), 93);

    let schema = Arc::new(Schema::new(vec![
        Field::new("id", DataType::Utf8, false),
        Field::new("date", DataType::Date32, true),
        Field::new("element", DataType::Utf8, false),
        Field::new("dataset", DataType::Utf8, false),
        Field::new("value", DataType::Float32, false),
        Field::new("lat", DataType::Float32, true),
        Field::new("lon", DataType::Float32, true),
    ]));

    let temp_file = NamedTempFile::new().unwrap();
    let file = temp_file.reopen().unwrap();
    let mut writer = ArrowWriter::try_new(file, schema.clone(), None).unwrap();
    for (a, b) in batch_bounds(rows.len(), 40) {
        let mut ids = StringBuilder::new();
        let mut dates = Date32Builder::new();
        let mut elements = StringBuilder::new();
        let mut datasets = StringBuilder::new();
        let mut values = Float32Builder::new();
        let mut lats = Float32Builder::new();
        let mut lons = Float32Builder::new();
        for row in &rows[a..b] {
            ids.append_value(&row.id);
            dates.append_option(row.date);
            elements.append_value(element_to_string(&row.element));
            datasets.append_value(ushcn::file_properties::dataset_to_string(&row.dataset));
            values.append_value(row.value.e4 as f32 / 10000.0);
            lats.append_option(row.lat.map(|d| d.e4 as f32 / 10000.0));
            lons.append_option(row.lon.map(|d| d.e4 as f32 / 10000.0));
        }
        let batch = RecordBatch::try_new(
            schema.clone(),
            vec![
                Arc::new(ids.finish()),
                Arc::new(dates.finish()),
                Arc::new(elements.finish()),
                Arc::new(datasets.finish()),
                Arc::new(values.finish()),
                Arc::new(lats.finish()),
                Arc::new(lons.finish()),
            ],
        )
        .unwrap();
        writer.write(&batch).unwrap();
    }
    writer.close().unwrap();

    let file = temp_file.reopen().unwrap();
    let reader = ParquetRecordBatchReaderBuilder::try_new(file).unwrap().build().unwrap();

    let mut total_rows = 0;
    let mut tmax_count = 0;
    let mut tmin_count = 0;
    let mut prcp_count = 0;

    for batch_result in reader {
        let batch = batch_result.unwrap();
        total_rows += batch.num_rows();

        let schema = batch.schema();
        assert_eq!(schema.fields().len(), 7);
        assert_eq!(schema.field(0).name(), "id");
        assert_eq!(schema.field(1).name(), "date");
        assert_eq!(schema.field(2).name(), "element");
        assert_eq!(schema.field(3).name(), "dataset");
        assert_eq!(schema.field(4).name(), "value");
        assert_eq!(schema.field(5).name(), "lat");
        assert_eq!(schema.field(6).name(), "lon");

        let element_array = batch.column(2);
        let value_array = batch.column(4);

        assert_eq!(value_array.null_count(), 0);

        if let Some(string_array) = element_array.as_any().downcast_ref::<StringArray>() {
            for i in 0..batch.num_rows() {
                let element_str = string_array.value(i);
                match element_str {
                    "TMAX" => tmax_count += 1,
                    "TMIN" => tmin_count += 1,
                    "PRCP" => prcp_count += 1,
                    _ => {}
                }
            }
        }
    }

    assert_eq!(total_rows, 93);
    assert_eq!(tmax_count, 31);
    assert_eq!(tmin_count, 31);
    assert_eq!(prcp_count, 31);
}

fn create_realistic_test_data() -> Vec<DailyReading> {
    let mut readings = Vec::new();

    // 100 stations with realistic sparsity: roughly one day in three has data
    for station_id in 0..100 {
        let mut values = vec![None; 31];
        for day in 0..31 {
            if day % 3 == 0 {
                values[day] = Some(Decimal::from_tenths(200 + day as i64));
            }
        }

        readings.push(DailyReading {
            id: format!("USW000{:05}", station_id),
            lat: Some(Decimal::from_e4(400000 + station_id * 1000)),
            lon: Some(Decimal::from_e4(-1000000 + station_id * 1000)),
            year: 2024,
            month: Some(1),
            properties: FileProperties { dataset: Dataset::Unknown, element: Element::Tmax },
            values,
        });
    }

    readings
}

#[test]
fn should_demonstrate_efficiency_improvement() {
    // the long layout holds rows only for present values, so it is far
    // smaller than the dense wide layout would be
    let readings = create_realistic_test_data();
    let rows = expand_daily_long(&readings);

    let expected_old_format_rows = readings.len() * 31;
    let actual_rows = rows.len();

    println!("New long format:");
    println!("  Actual rows: {}", actual_rows);
    println!("Old wide format would have:");
    println!("  Rows: {}", expected_old_format_rows);

    assert!(actual_rows < expected_old_format_rows);
    let ratio = actual_rows as f64 / (expected_old_format_rows as f64);
    assert!(ratio < 0.5);
}

#[test]
fn should_round_trip_long_rows() {
    // every (id, date, element, value) tuple survives writing and reading
    let readings = comprehensive_fixture();
    let rows = expand_daily_long(&readings);

    let schema = Arc::new(Schema::new(vec![
        Field::new("id", DataType::Utf8, false),
        Field::new("date", DataType::Date32, true),
        Field::new("element", DataType::Utf8, false),
        Field::new("value", DataType::Float32, false),
    ]));
    let temp_file = NamedTempFile::new().unwrap();
    let file = temp_file.reopen().unwrap();
    let mut writer = ArrowWriter::try_new(file, schema.clone(), None).unwrap();
    let mut ids = StringBuilder::new();
    let mut dates = Date32Builder::new();
    let mut elements = StringBuilder::new();
    let mut values = Float32Builder::new();
    for row in &rows {
        ids.append_value(&row.id);
        dates.append_option(row.date);
        elements.append_value(element_to_string(&row.element));
        values.append_value(row.value.e4 as f32 / 10000.0);
    }
    let batch = RecordBatch::try_new(
        schema.clone(),
        vec![
            Arc::new(ids.finish()),
            Arc::new(dates.finish()),
            Arc::new(elements.finish()),
            Arc::new(values.finish()),
        ],
    )
    .unwrap();
    writer.write(&batch).unwrap();
    writer.close().unwrap();

    let file = temp_file.reopen().unwrap();
    let reader = ParquetRecordBatchReaderBuilder::try_new(file).unwrap().build().unwrap();
    let mut back: Vec<(String, Option<i32>, String, f32)> = Vec::new();
    for batch_result in reader {
        let batch = batch_result.unwrap();
        let ids = batch.column(0).as_any().downcast_ref::<StringArray>().unwrap();
        let dates = batch
            .column(1)
            .as_any()
            .downcast_ref::<arrow_array::Date32Array>()
            .unwrap();
        let elements = batch.column(2).as_any().downcast_ref::<StringArray>().unwrap();
        let values = batch
            .column(3)
            .as_any()
            .downcast_ref::<arrow_array::Float32Array>()
            .unwrap();
        for i in 0..batch.num_rows() {
            let date = if dates.is_null(i) { None } else { Some(dates.value(i)) };
            back.push((
                ids.value(i).to_string(),
                date,
                elements.value(i).to_string(),
                values.value(i),
            ));
        }
    }
    assert_eq!(back.len(), rows.len());
    for (row, got) in rows.iter().zip(back.iter()) {
        assert_eq!(got.0, row.id);
        assert_eq!(got.1, row.date);
        assert_eq!(got.2, element_to_string(&row.element));
        assert_eq!(got.3, row.value.e4 as f32 / 10000.0);
    }
}
