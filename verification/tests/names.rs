use ushcn::names::{
    dataset_map, element_map, generate_file_urls, make_dataset_parquet_file_name,
    make_ghcn_parquet_file_name, make_parquet_file_name, make_ushcn_parquet_file_name,
    pad2_string, u32_to_string,
};

#[test]
fn should_generate_file_urls() {
    let element_map = element_map();
    let dataset_map = dataset_map();
    let file_urls = generate_file_urls(&element_map, &dataset_map);

    assert_eq!(file_urls.len(), 9);

    assert!(file_urls.contains(
        &"https://www.ncei.noaa.gov/pub/data/ushcn/v2.5/ushcn.tmin.latest.raw.tar.gz"
            .to_string()
    ));
}

#[test]
fn urls_cross_every_element_with_every_dataset() {
    let file_urls = generate_file_urls(&element_map(), &dataset_map());
    assert_eq!(
        file_urls[0],
        "https://www.ncei.noaa.gov/pub/data/ushcn/v2.5/ushcn.tmax.latest.FLs.52j.tar.gz"
    );
    assert_eq!(
        file_urls[8],
        "https://www.ncei.noaa.gov/pub/data/ushcn/v2.5/ushcn.tavg.latest.tob.tar.gz"
    );
}

#[test]
fn numbers_format_in_decimal() {
    assert_eq!(u32_to_string(0), "0");
    assert_eq!(u32_to_string(2024), "2024");
    assert_eq!(u32_to_string(907), "907");
    assert_eq!(pad2_string(5), "05");
    assert_eq!(pad2_string(12), "12");
}

#[test]
fn output_file_names_carry_the_date() {
    assert_eq!(
        make_parquet_file_name("daily", 2024, 7, 16),
        "ushcn-daily-2024-07-16.parquet"
    );
    assert_eq!(
        make_dataset_parquet_file_name("monthly", "raw", 2024, 7, 16),
        "ushcn-monthly-raw-2024-07-16.parquet"
    );
    // the dataset tag is folded to lower case, as with an upper-case tag
    assert_eq!(
        make_dataset_parquet_file_name("monthly", "RAW", 2024, 7, 16),
        "ushcn-monthly-raw-2024-07-16.parquet"
    );
    assert_eq!(
        make_ushcn_parquet_file_name(2024, 7, 16),
        "ushcn-stations-2024-07-16.parquet"
    );
    assert_eq!(
        make_ghcn_parquet_file_name(2024, 7, 16),
        "ghcnd-stations-2024-07-16.parquet"
    );
}
