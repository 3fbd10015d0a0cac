use geopic::coords::{convert_latlng, Fraction, LatLng, URational};
use geopic::metadata::{extract_metadata, ExifEntry, ExifField, GpsInfo};

fn r(num: u32, den: u32) -> URational {
    URational { num, den }
}

fn dms(d: u32, m: u32, s: u32) -> LatLng {
    LatLng { degrees: r(d, 1), minutes: r(m, 1), seconds: r(s, 1) }
}

#[test]
fn north_40_45_30_is_exact() {
    let f = convert_latlng(&dms(40, 45, 30), 'N').unwrap();
    assert_eq!(f, Fraction { num: 146730, den: 3600 });
    let approx = f.num as f64 / f.den as f64;
    assert!((approx - (40.0 + 45.0 / 60.0 + 30.0 / 3600.0)).abs() < 1e-12);
}

#[test]
fn south_and_west_are_negative() {
    assert_eq!(convert_latlng(&dms(33, 52, 4), 'S').unwrap().num, -(33 * 3600 + 52 * 60 + 4));
    assert!(convert_latlng(&dms(0, 0, 1), 'W').unwrap().num < 0);
    assert!(convert_latlng(&dms(12, 0, 0), 'E').unwrap().num > 0);
    assert_eq!(convert_latlng(&dms(0, 0, 0), 'S').unwrap().num, 0);
}

#[test]
fn fractional_seconds_use_common_denominator() {
    let ll = LatLng { degrees: r(10, 1), minutes: r(30, 1), seconds: r(1505, 100) };
    let f = convert_latlng(&ll, 'N').unwrap();
    assert_eq!(f.den, 3600 * 100);
    assert_eq!(f.num, 3600 * 10 * 100 + 60 * 30 * 100 + 1505);
}

#[test]
fn zero_denominator_has_no_value() {
    let ll = LatLng { degrees: r(10, 0), minutes: r(0, 1), seconds: r(0, 1) };
    assert_eq!(convert_latlng(&ll, 'N'), None);
}

#[test]
fn largest_rationals_do_not_overflow() {
    let m = u32::MAX;
    let ll = LatLng { degrees: r(m, m), minutes: r(m, m), seconds: r(m, m) };
    let f = convert_latlng(&ll, 'W').unwrap();
    let d = m as i128;
    assert_eq!(f.num, -(3600 * d * d * d + 60 * d * d * d + d * d * d));
    assert_eq!(f.den, 3600 * (m as u128) * (m as u128) * (m as u128));
}

fn entry(field: ExifField, value: &str) -> ExifEntry {
    ExifEntry { field, value: value.to_string() }
}

#[test]
fn extraction_maps_tags_and_gps() {
    let gps = GpsInfo {
        latitude: dms(40, 45, 30),
        latitude_ref: 'N',
        longitude: dms(73, 59, 8),
        longitude_ref: 'W',
        altitude: r(1234, 10),
    };
    let entries = vec![
        entry(ExifField::Make, "Canon"),
        entry(ExifField::Model, "EOS R5"),
        entry(ExifField::CreateDate, "2023:01:01 10:00:00"),
        entry(ExifField::DateTimeOriginal, "2023:01:01 09:00:00"),
        entry(ExifField::LensModel, "24-70mm"),
        entry(ExifField::ExposureTime, "1/250"),
        entry(ExifField::FNumber, "2.8"),
        entry(ExifField::IsoSpeedRatings, "400"),
        entry(ExifField::Other, "ignored"),
        entry(ExifField::Make, "Canon Inc."),
    ];
    let m = extract_metadata(Some(gps), &entries);
    assert_eq!(m.latitude, Some(Fraction { num: 146730, den: 3600 }));
    assert_eq!(m.longitude, Some(Fraction { num: -(73 * 3600 + 59 * 60 + 8), den: 3600 }));
    assert_eq!(m.altitude, Some(Fraction { num: 1234, den: 10 }));
    assert_eq!(m.make.as_deref(), Some("Canon Inc."));
    assert_eq!(m.model.as_deref(), Some("EOS R5"));
    assert_eq!(m.timestamp.as_deref(), Some("2023:01:01 10:00:00"));
    assert_eq!(m.lens.as_deref(), Some("24-70mm"));
    assert_eq!(m.exposure.as_deref(), Some("1/250"));
    assert_eq!(m.f_number.as_deref(), Some("2.8"));
    assert_eq!(m.iso.as_deref(), Some("400"));
}

#[test]
fn extraction_without_finite_coordinates_has_no_gps() {
    let gps = GpsInfo {
        latitude: dms(40, 45, 30),
        latitude_ref: 'N',
        longitude: LatLng { degrees: r(1, 0), minutes: r(0, 1), seconds: r(0, 1) },
        longitude_ref: 'E',
        altitude: r(5, 0),
    };
    let m = extract_metadata(Some(gps), &Vec::new());
    assert_eq!(m.latitude, None);
    assert_eq!(m.longitude, None);
    assert_eq!(m.altitude, None);
    let empty = extract_metadata(None, &Vec::new());
    assert!(empty.make.is_none() && empty.latitude.is_none() && empty.timestamp.is_none());
}
