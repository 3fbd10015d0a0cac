use geopic::batch::{export_format, lookup_wait, Batch, ExportFormat, ExportRecord, FileStep};
use geopic::coords::Fraction;
use geopic::geocode::GeoError;
use geopic::metadata::PhotoMetadata;

fn with_gps(lat: i128, lon: i128) -> PhotoMetadata {
    let mut m = PhotoMetadata::empty();
    m.latitude = Some(Fraction { num: lat, den: 1 });
    m.longitude = Some(Fraction { num: lon, den: 1 });
    m
}

fn files(n: usize) -> Vec<String> {
    (0..n).map(|i| format!("/photos/img{}.jpg", i)).collect()
}

#[test]
fn lookups_are_paced_one_second_apart() {
    assert_eq!(lookup_wait(None, 0), 0);
    assert_eq!(lookup_wait(Some(0), 200), 800);
    assert_eq!(lookup_wait(Some(5000), 6000), 0);
    assert_eq!(lookup_wait(Some(5000), 9000), 0);
    assert_eq!(lookup_wait(Some(5000), 4000), 2000);
    assert_eq!(lookup_wait(Some(u64::MAX), 0), u64::MAX);

    let mut b = Batch::new(files(3));
    let mut starts = Vec::new();
    let mut now = 0u64;
    while let Some(_) = b.current_file() {
        match b.on_extracted(with_gps(1, 2), None, now) {
            FileStep::Geocode { wait_ms, .. } => {
                let start = now + wait_ms;
                starts.push(start);
                b.on_geocoded(Ok("somewhere".to_string()), start);
                now = start + 150;
            }
            FileStep::Recorded => panic!("eligible file was not geocoded"),
        }
    }
    assert_eq!(starts, vec![0, 1000, 2000]);
    for w in starts.windows(2) {
        assert!(w[1] - w[0] >= 1000);
    }
}

#[test]
fn empty_batch_is_done_at_once() {
    let b = Batch::new(Vec::new());
    assert!(b.is_done());
    assert!(b.current_file().is_none());
    assert_eq!(b.records.len(), 0);
}

#[test]
fn rate_limited_lookup_does_not_stop_the_run() {
    let mut b = Batch::new(files(3));
    let step = b.on_extracted(with_gps(10, 20), None, 0);
    assert!(matches!(step, FileStep::Geocode { wait_ms: 0, .. }));
    b.on_geocoded(Err(GeoError::RateLimited), 0);
    assert!(!b.is_done());
    assert_eq!(b.current_file().map(|s| s.as_str()), Some("/photos/img1.jpg"));
    match b.on_extracted(with_gps(30, 40), None, 300) {
        FileStep::Geocode { latitude, longitude, wait_ms } => {
            assert_eq!(latitude, Fraction { num: 30, den: 1 });
            assert_eq!(longitude, Fraction { num: 40, den: 1 });
            assert_eq!(wait_ms, 700);
        }
        FileStep::Recorded => panic!("eligible file was not geocoded"),
    }
    b.on_geocoded(Ok("Main Street".to_string()), 1000);
    assert!(matches!(b.on_extracted(PhotoMetadata::empty(), None, 1200), FileStep::Recorded));
    assert!(b.is_done());
    let addresses: Vec<Option<String>> = b.records.iter().map(|r| r.address.clone()).collect();
    assert_eq!(addresses, vec![None, Some("Main Street".to_string()), None]);
}

#[test]
fn every_file_gets_one_record() {
    let mut b = Batch::new(files(4));
    let mut i = 0;
    while b.current_file().is_some() {
        let meta = if i % 2 == 0 { with_gps(1, 1) } else { PhotoMetadata::empty() };
        if let FileStep::Geocode { .. } = b.on_extracted(meta, None, 10_000 * i) {
            b.on_geocoded(Err(GeoError::Timeout), 10_000 * i);
        }
        i += 1;
    }
    assert_eq!(b.records.len(), 4);
    let paths: Vec<&str> = b.records.iter().map(|r| r.file_path.as_str()).collect();
    assert_eq!(paths, vec!["/photos/img0.jpg", "/photos/img1.jpg", "/photos/img2.jpg", "/photos/img3.jpg"]);
    assert!(b.records.iter().all(|r| r.address.is_none()));
}

#[test]
fn record_flattens_metadata() {
    let mut m = with_gps(5, 6);
    m.make = Some("Sony".to_string());
    let r = ExportRecord::from_meta("a.jpg".to_string(), m, Some("Road".to_string()));
    assert_eq!(r.file_path, "a.jpg");
    assert_eq!(r.latitude, Some(Fraction { num: 5, den: 1 }));
    assert_eq!(r.make.as_deref(), Some("Sony"));
    assert_eq!(r.address.as_deref(), Some("Road"));
    assert_eq!(r.iso, None);
}

#[test]
fn output_extension_selects_format() {
    assert_eq!(export_format("out.csv"), ExportFormat::Csv);
    assert_eq!(export_format("out.json"), ExportFormat::Json);
    assert_eq!(export_format("out"), ExportFormat::Json);
    assert_eq!(export_format(".csv"), ExportFormat::Csv);
    assert_eq!(export_format("out.CSV"), ExportFormat::Json);
}
