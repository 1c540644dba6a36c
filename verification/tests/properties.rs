use ushcn::file_properties::{
    ascii_lower, dataset_to_string, element_to_string, Dataset, Element, FileProperties,
};

#[test]
fn should_get_file_property() {
    let p1 = FileProperties::from_file("USH00297610.tob.tmax").unwrap();
    assert_eq!(p1.dataset, Dataset::Tob);
    assert_eq!(p1.element, Element::Max);

    let p2 = FileProperties::from_file("USH00118916.FLs.52j.tmin").unwrap();
    assert_eq!(p2.dataset, Dataset::Fls52);
    assert_eq!(p2.element, Element::Min);
}

#[test]
fn should_get_none_for_unknown_file() {
    let p = FileProperties::from_file("unknown.file").unwrap();
    assert_eq!(p.dataset, Dataset::Unknown);
    assert_eq!(p.element, Element::Unknown);
}

#[test]
fn raw_and_avg_tags_are_recognized() {
    let p = FileProperties::from_file("USH00297610.raw.tavg").unwrap();
    assert_eq!(p.dataset, Dataset::Raw);
    assert_eq!(p.element, Element::Avg);
}

#[test]
fn element_from_str_folds_case() {
    assert_eq!(Element::from_str("PRCP"), Element::Prcp);
    assert_eq!(Element::from_str("pRcP"), Element::Prcp);
    assert_eq!(Element::from_str("tmax"), Element::Tmax);
    assert_eq!(Element::from_str("TMIN"), Element::Tmin);
    assert_eq!(Element::from_str("SNOW"), Element::Unknown);
}

#[test]
fn from_element_carries_no_dataset() {
    let p = FileProperties::from_element("TMAX").unwrap();
    assert_eq!(p.dataset, Dataset::Unknown);
    assert_eq!(p.element, Element::Tmax);
}

#[test]
fn output_tags_are_upper_case() {
    assert_eq!(element_to_string(&Element::Tmax), "TMAX");
    assert_eq!(element_to_string(&Element::Tmin), "TMIN");
    assert_eq!(element_to_string(&Element::Prcp), "PRCP");
    assert_eq!(element_to_string(&Element::Max), "UNKNOWN");
    assert_eq!(dataset_to_string(&Dataset::Raw), "RAW");
    assert_eq!(dataset_to_string(&Dataset::Tob), "TOB");
    assert_eq!(dataset_to_string(&Dataset::Fls52), "FLS52");
    assert_eq!(dataset_to_string(&Dataset::Unknown), "UNKNOWN");
}

#[test]
fn ascii_lower_folds_capitals_only() {
    assert_eq!(ascii_lower("RAW"), "raw");
    assert_eq!(ascii_lower("FLs.52j"), "fls.52j");
    assert_eq!(ascii_lower("tob-9 Z"), "tob-9 z");
    assert_eq!(ascii_lower(""), "");
}
