use geopic::coords::Fraction;
use geopic::decimal::parse_decimal;
use geopic::deep::{deep_record, deep_scan_result, iso_text, DeepFields};
use geopic::discover::{discover_files, is_supported_file};

#[test]
fn supported_extensions_ignore_case() {
    assert!(is_supported_file("/a/b/photo.jpg"));
    assert!(is_supported_file("photo.JPEG"));
    assert!(is_supported_file("x/y.HeIc"));
    assert!(is_supported_file("y.heif"));
    assert!(is_supported_file("scan.tiff"));
    assert!(!is_supported_file("scan.tif"));
    assert!(!is_supported_file("notes.txt"));
    assert!(!is_supported_file("/dir.jpg/readme"));
    assert!(!is_supported_file("/photos/.jpg"));
    assert!(!is_supported_file("jpg"));
    assert!(!is_supported_file(""));
    assert!(is_supported_file("/photos/.hidden.jpg"));
}

#[test]
fn discovery_keeps_supported_files_in_order() {
    let walked: Vec<String> = ["a.jpg", "b.txt", "c.PNG", "d.tiff", "e.Heic"].iter().map(|s| s.to_string()).collect();
    assert_eq!(discover_files("root".to_string(), true, &walked), vec!["a.jpg", "d.tiff", "e.Heic"]);
    assert_eq!(discover_files("single.txt".to_string(), false, &walked), vec!["single.txt"]);
    let none: Vec<String> = vec!["x.txt".to_string(), "y.png".to_string()];
    assert!(discover_files("root".to_string(), true, &none).is_empty());
}

#[test]
fn decimal_text_is_read_exactly() {
    assert_eq!(parse_decimal("40.758333"), Some(Fraction { num: 40758333, den: 1000000 }));
    assert_eq!(parse_decimal("-3.25"), Some(Fraction { num: -325, den: 100 }));
    assert_eq!(parse_decimal("100"), Some(Fraction { num: 100, den: 1 }));
    assert_eq!(parse_decimal("1e-7"), Some(Fraction { num: 1, den: 10_000_000 }));
    assert_eq!(parse_decimal("1.5e20"), Some(Fraction { num: 1_500_000_000_000_000_000_000, den: 10 }));
    assert_eq!(parse_decimal("-2.5E+3"), Some(Fraction { num: -25000, den: 10 }));
    assert_eq!(parse_decimal("1e-300"), None);
    assert_eq!(parse_decimal("0e400"), Some(Fraction { num: 0, den: 1 }));
    assert_eq!(parse_decimal("0e4000"), None);
    assert_eq!(parse_decimal("0e40"), Some(Fraction { num: 0, den: 1 }));
    assert_eq!(parse_decimal("1e"), None);
    assert_eq!(parse_decimal("1e1234"), None);
    assert_eq!(parse_decimal("1e2e3"), None);
    assert_eq!(parse_decimal("1."), None);
    assert_eq!(parse_decimal(".5"), None);
    assert_eq!(parse_decimal("1.2.3"), None);
    assert_eq!(parse_decimal(""), None);
    assert_eq!(parse_decimal("-"), None);
    assert_eq!(parse_decimal("999999999999999999999999999999999999"), Some(Fraction { num: 999999999999999999999999999999999999, den: 1 }));
    assert_eq!(parse_decimal("9999999999999999999999999999999999999"), None);
}

#[test]
fn iso_text_is_decimal() {
    assert_eq!(iso_text(100), "100");
    assert_eq!(iso_text(-5), "-5");
    assert_eq!(iso_text(0), "0");
}

#[test]
fn deep_scan_output_is_read() {
    let out = r#"[{"SourceFile":"a.jpg","Make":"Canon","Model":"EOS R5","LensModel":"RF24-70mm","ExposureTime":"1/250","FNumber":2.8,"ISO":400,"GPSLatitude":40.5,"GPSLongitude":-3.25,"GPSAltitude":12}]"#;
    let m = deep_scan_result(true, out).unwrap();
    assert_eq!(m.make.as_deref(), Some("Canon"));
    assert_eq!(m.model.as_deref(), Some("EOS R5"));
    assert_eq!(m.lens.as_deref(), Some("RF24-70mm"));
    assert_eq!(m.exposure.as_deref(), Some("1/250"));
    assert_eq!(m.f_number.as_deref(), Some("2.8"));
    assert_eq!(m.iso.as_deref(), Some("400"));
    assert_eq!(m.latitude, Some(Fraction { num: 405, den: 10 }));
    assert_eq!(m.longitude, Some(Fraction { num: -325, den: 100 }));
    assert_eq!(m.altitude, Some(Fraction { num: 12, den: 1 }));
    assert_eq!(m.timestamp, None);
}

#[test]
fn deep_scan_tolerates_missing_fields_and_failures() {
    let m = deep_scan_result(true, r#"[{"Make":"Apple","GPSLatitude":"40 deg 45' 30.00\" N"}]"#).unwrap();
    assert_eq!(m.make.as_deref(), Some("Apple"));
    assert_eq!(m.latitude, None);
    assert_eq!(m.iso, None);
    assert!(deep_scan_result(false, r#"[{"Make":"Apple"}]"#).is_none());
    assert!(deep_scan_result(true, "[]").is_none());
    assert!(deep_scan_result(true, "garbage").is_none());
    assert!(deep_scan_result(true, r#"{"Make":"Apple"}"#).is_none());
}

#[test]
fn deep_fields_become_a_record() {
    let f = DeepFields {
        latitude: Some("51.5007".to_string()),
        longitude: Some("-0.1246".to_string()),
        altitude: Some("1e3".to_string()),
        make: Some("Fujifilm".to_string()),
        model: None,
        lens: Some("XF35mm".to_string()),
        exposure: None,
        f_number: Some("5.6".to_string()),
        iso: Some(3200),
    };
    let m = deep_record(f);
    assert_eq!(m.latitude, Some(Fraction { num: 515007, den: 10000 }));
    assert_eq!(m.longitude, Some(Fraction { num: -1246, den: 10000 }));
    assert_eq!(m.altitude, Some(Fraction { num: 1000, den: 1 }));
    assert_eq!(m.make.as_deref(), Some("Fujifilm"));
    assert_eq!(m.model, None);
    assert_eq!(m.lens.as_deref(), Some("XF35mm"));
    assert_eq!(m.f_number.as_deref(), Some("5.6"));
    assert_eq!(m.iso.as_deref(), Some("3200"));
    assert_eq!(m.timestamp, None);
}

#[test]
fn deep_scan_reads_first_element_and_pairs_gps() {
    let m = deep_scan_result(true, r#"[{"Make":"A","GPSLatitude":12.5,"FNumber":0.15},{"Make":"B"}]"#).unwrap();
    assert_eq!(m.make.as_deref(), Some("A"));
    assert_eq!(m.model, None);
    assert_eq!(m.latitude, None);
    assert_eq!(m.longitude, None);
    assert_eq!(m.f_number.as_deref(), Some("0.1"));
    let m = deep_scan_result(true, r#"[{"GPSLatitude":1e-7,"GPSLongitude":4,"FNumber":4}]"#).unwrap();
    assert_eq!(m.latitude, Some(Fraction { num: 1, den: 10_000_000 }));
    assert_eq!(m.longitude, Some(Fraction { num: 4, den: 1 }));
    assert_eq!(m.f_number.as_deref(), Some("4.0"));
}

#[test]
fn deep_fields_with_lone_coordinate_have_no_gps() {
    let f = DeepFields {
        latitude: Some("10.25".to_string()),
        longitude: None,
        altitude: Some("abc".to_string()),
        make: None,
        model: None,
        lens: None,
        exposure: None,
        f_number: None,
        iso: None,
    };
    let m = deep_record(f);
    assert_eq!(m.latitude, None);
    assert_eq!(m.longitude, None);
    assert_eq!(m.altitude, None);
}
