use geopic::coords::Fraction;
use geopic::metadata::{merge, pair_gps, primary_record, ExtractionError, PhotoMetadata};

fn s(v: &str) -> Option<String> {
    Some(v.to_string())
}

fn frac(num: i128, den: u128) -> Option<Fraction> {
    Some(Fraction { num, den })
}

#[test]
fn deep_overrides_and_union_fills() {
    let mut primary = PhotoMetadata::empty();
    primary.make = s("A");
    primary.iso = s("100");
    let mut deep = PhotoMetadata::empty();
    deep.make = s("B");
    deep.lens = s("X");
    let m = merge(primary, Some(deep));
    assert_eq!(m.make, s("B"));
    assert_eq!(m.iso, s("100"));
    assert_eq!(m.lens, s("X"));
    assert_eq!(m.model, None);
    assert_eq!(m.latitude, None);
}

#[test]
fn missing_deep_keeps_primary() {
    let mut primary = PhotoMetadata::empty();
    primary.latitude = frac(405, 10);
    primary.longitude = frac(-325, 100);
    primary.altitude = frac(12, 1);
    primary.timestamp = s("2024:05:01 12:00:00");
    primary.make = s("Nikon");
    primary.f_number = s("4.0");
    let m = merge(primary, None);
    assert_eq!(m.latitude, frac(405, 10));
    assert_eq!(m.longitude, frac(-325, 100));
    assert_eq!(m.altitude, frac(12, 1));
    assert_eq!(m.timestamp, s("2024:05:01 12:00:00"));
    assert_eq!(m.make, s("Nikon"));
    assert_eq!(m.f_number, s("4.0"));
    assert_eq!(m.iso, None);
}

#[test]
fn lone_coordinate_is_dropped() {
    let mut primary = PhotoMetadata::empty();
    primary.latitude = frac(1, 1);
    let m = merge(primary, None);
    assert!(m.latitude.is_none() && m.longitude.is_none());

    let mut primary = PhotoMetadata::empty();
    primary.latitude = frac(1, 1);
    primary.longitude = frac(2, 1);
    let mut deep = PhotoMetadata::empty();
    deep.longitude = frac(9, 1);
    let m = merge(primary, Some(deep));
    assert_eq!(m.latitude, frac(1, 1));
    assert_eq!(m.longitude, frac(2, 1));
    assert!(m.has_gps());
}

#[test]
fn deep_pair_replaces_primary_pair() {
    let mut primary = PhotoMetadata::empty();
    primary.latitude = frac(1, 1);
    primary.longitude = frac(2, 1);
    let mut deep = PhotoMetadata::empty();
    deep.latitude = frac(3, 1);
    deep.longitude = frac(4, 1);
    let m = merge(primary, Some(deep));
    assert_eq!(m.latitude, frac(3, 1));
    assert_eq!(m.longitude, frac(4, 1));
}

#[test]
fn both_sources_empty_give_empty_record() {
    let m = merge(PhotoMetadata::empty(), Some(PhotoMetadata::empty()));
    assert!(m.make.is_none() && m.latitude.is_none() && m.iso.is_none() && !m.has_gps());
    let mut lone = PhotoMetadata::empty();
    lone.longitude = frac(7, 1);
    let p = pair_gps(lone);
    assert!(p.longitude.is_none());
}

#[test]
fn failed_embedded_read_contributes_nothing() {
    let m = primary_record(Err(ExtractionError::IoFailure("missing".to_string())));
    assert!(m.make.is_none() && m.latitude.is_none() && m.timestamp.is_none());
    let m = primary_record(Err(ExtractionError::Unsupported));
    assert!(m.iso.is_none());
    let mut ok = PhotoMetadata::empty();
    ok.make = s("Leica");
    let m = primary_record(Ok(ok));
    assert_eq!(m.make, s("Leica"));
    let merged = merge(primary_record(Err(ExtractionError::NoHeaders)), None);
    assert!(merged.make.is_none() && !merged.has_gps());
}

#[test]
fn non_finite_pair_is_dropped() {
    let mut primary = PhotoMetadata::empty();
    primary.latitude = frac(1, 0);
    primary.longitude = frac(2, 1);
    primary.make = s("Pentax");
    let m = merge(primary, None);
    assert!(m.latitude.is_none() && m.longitude.is_none());
    assert_eq!(m.make, s("Pentax"));
}
