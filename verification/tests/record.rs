//! Canonical records and their identifiers.

use climate::datasources::record::{make_record_key, ClimateRecord};
use climate::models::number::Float64;
use climate::models::value::{copy_fields, FieldValue};
use climate::utils::text::{chars_of, hex_digit, join, push_decimal, push_hex};

fn number(x: f64) -> Float64 {
    Float64::from_bits(x.to_bits())
}

fn berlin() -> ClimateRecord {
    ClimateRecord {
        source_id: "noaa_cdo".to_string(),
        timestamp: "2024-01-01T12:00:00Z".to_string(),
        latitude: number(52.5),
        longitude: number(13.4),
        location_name: Some("Berlin".to_string()),
        data: vec![("temperature_celsius".to_string(), FieldValue::Float(number(1.5)))],
    }
}

#[test]
fn the_identifier_is_made_of_source_time_and_place() {
    let record = berlin();
    assert_eq!(
        record.record_id(),
        "noaa_cdo|2024-01-01T12:00:00Z|404a400000000000|402acccccccccccd"
    );
    assert_eq!(
        record.record_id(),
        format!(
            "noaa_cdo|2024-01-01T12:00:00Z|{:016x}|{:016x}",
            52.5f64.to_bits(),
            13.4f64.to_bits()
        )
    );
}

#[test]
fn the_identifier_depends_on_nothing_else() {
    let record = berlin();
    let mut other = berlin();
    other.location_name = None;
    other.data = vec![("humidity_percent".to_string(), FieldValue::Integer(80))];
    assert_eq!(record.record_id(), other.record_id());
    assert_eq!(
        make_record_key("noaa_cdo", "2024-01-01T12:00:00Z", number(52.5), number(13.4)),
        record.record_id()
    );
}

#[test]
fn the_identifier_tells_records_apart() {
    let record = berlin();
    let mut elsewhere = berlin();
    elsewhere.latitude = number(-52.5);
    let mut later = berlin();
    later.timestamp = "2024-01-01T12:00:01Z".to_string();
    let mut other_source = berlin();
    other_source.source_id = "nasa_power".to_string();
    let mut east = berlin();
    east.longitude = number(13.5);
    for other in [&elsewhere, &later, &other_source, &east] {
        assert_ne!(record.record_id(), other.record_id());
    }
    assert_eq!(
        make_record_key("", "", Float64::from_bits(0), Float64::from_bits(u64::MAX)),
        "||0000000000000000|ffffffffffffffff"
    );
}

#[test]
fn canonical_records_are_recognised() {
    assert!(berlin().is_canonical());
    let mut nameless = berlin();
    nameless.source_id = String::new();
    assert!(!nameless.is_canonical());
    let mut timeless = berlin();
    timeless.timestamp = "2024-01-01 noon".to_string();
    assert!(!timeless.is_canonical());
    let mut north = berlin();
    north.latitude = number(95.0);
    assert!(!north.is_canonical());
    let mut pole = berlin();
    pole.latitude = number(-90.0);
    assert!(pole.is_canonical());
    let mut far = berlin();
    far.longitude = number(180.5);
    assert!(!far.is_canonical());
    let mut nowhere = berlin();
    nowhere.longitude = number(f64::NAN);
    assert!(!nowhere.is_canonical());
}

#[test]
fn a_copy_is_equal() {
    let record = berlin();
    assert_eq!(record.clone(), record);
    assert_eq!(copy_fields(&record.data), record.data);
    let value = FieldValue::Text("x".to_string());
    assert_eq!(value.clone(), value);
    assert!(FieldValue::Null.is_null());
    assert!(!FieldValue::Bool(false).is_null());
}

#[test]
fn text_helpers() {
    assert_eq!(chars_of("añ😀"), vec!['a', 'ñ', '😀']);
    assert_eq!(chars_of(""), Vec::<char>::new());
    assert_eq!(join("left", "right"), "leftright");
    let digits: String = (0..16).map(hex_digit).collect();
    assert_eq!(digits, "0123456789abcdef");
    assert_eq!(push_hex("x".to_string(), 0xBEEF, 8), "x0000beef");
    assert_eq!(push_hex(String::new(), 0x1234, 2), "34");
    assert_eq!(push_hex("x".to_string(), 5, 0), "x");
    assert_eq!(push_decimal("n=".to_string(), 0), "n=0");
    assert_eq!(push_decimal(String::new(), 429), "429");
    assert_eq!(push_decimal(String::new(), u64::MAX), u64::MAX.to_string());
}
