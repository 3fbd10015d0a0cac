use vstd::prelude::*;
use crate::coords::Fraction;
use crate::decimal::{decimal_value, parse_decimal};
use crate::json::{
    first_item_exists, first_item_i64, first_item_number, first_item_str, first_item_tenths,
    json_first_item_exists, json_first_item_i64, json_first_item_number, json_first_item_str,
    json_first_item_tenths, opt_view,
};
use crate::metadata::PhotoMetadata;
use crate::text::{int_text, write_int};

verus! {

/// An ISO speed as decimal text.
pub fn iso_text(n: i64) -> (r: String)
    ensures
        r@ == int_text(n as int),
{
    let mut out = String::new();
    write_int(&mut out, n);
    assert(Seq::<char>::empty() + int_text(n as int) == int_text(n as int));
    out
}

/// What the deep scanner reported for one file, as plain values: numbers as
/// their JSON text (the aperture already printed with one fractional digit),
/// strings as they are.
#[derive(Debug)]
pub struct DeepFields {
    pub latitude: Option<String>,
    pub longitude: Option<String>,
    pub altitude: Option<String>,
    pub make: Option<String>,
    pub model: Option<String>,
    pub lens: Option<String>,
    pub exposure: Option<String>,
    pub f_number: Option<String>,
    pub iso: Option<i64>,
}

/// What the deep scanner reported, at the level of text: numbers as their
/// JSON text (the aperture with one fractional digit), strings as they are,
/// the ISO speed as an integer.
pub struct DeepReport {
    pub latitude: Option<Seq<char>>,
    pub longitude: Option<Seq<char>>,
    pub altitude: Option<Seq<char>>,
    pub make: Option<Seq<char>>,
    pub model: Option<Seq<char>>,
    pub lens: Option<Seq<char>>,
    pub exposure: Option<Seq<char>>,
    pub f_number: Option<Seq<char>>,
    pub iso: Option<int>,
}

pub open spec fn report_of(f: DeepFields) -> DeepReport {
    DeepReport {
        latitude: opt_view(f.latitude),
        longitude: opt_view(f.longitude),
        altitude: opt_view(f.altitude),
        make: opt_view(f.make),
        model: opt_view(f.model),
        lens: opt_view(f.lens),
        exposure: opt_view(f.exposure),
        f_number: opt_view(f.f_number),
        iso: match f.iso {
            Some(n) => Some(n as int),
            None => None,
        },
    }
}

/// What the first element of the JSON array in the scanner's output reports.
pub open spec fn report_in_output(text: Seq<char>) -> DeepReport {
    DeepReport {
        latitude: json_first_item_number(text, "GPSLatitude"@),
        longitude: json_first_item_number(text, "GPSLongitude"@),
        altitude: json_first_item_number(text, "GPSAltitude"@),
        make: json_first_item_str(text, "Make"@),
        model: json_first_item_str(text, "Model"@),
        lens: json_first_item_str(text, "LensModel"@),
        exposure: json_first_item_str(text, "ExposureTime"@),
        f_number: json_first_item_tenths(text, "FNumber"@),
        iso: json_first_item_i64(text, "ISO"@),
    }
}

/// The value of an optional number text; none when absent or not a decimal.
pub open spec fn number_value(t: Option<Seq<char>>) -> Option<Fraction> {
    match t {
        Some(t) => decimal_value(t),
        None => None,
    }
}

/// `m` is the deep record of a report: numbers read exactly, a coordinate
/// kept only together with its partner, the aperture text as reported, the
/// ISO speed in decimal, no capture time.
pub open spec fn is_deep_record(f: DeepReport, m: PhotoMetadata) -> bool {
    let lat = number_value(f.latitude);
    let lon = number_value(f.longitude);
    &&& if lat is Some && lon is Some {
        m.latitude == lat && m.longitude == lon
    } else {
        m.latitude is None && m.longitude is None
    }
    &&& m.altitude == number_value(f.altitude)
    &&& m.timestamp is None
    &&& opt_view(m.make) == f.make
    &&& opt_view(m.model) == f.model
    &&& opt_view(m.lens) == f.lens
    &&& opt_view(m.exposure) == f.exposure
    &&& opt_view(m.f_number) == f.f_number
    &&& match f.iso {
        Some(n) => m.iso matches Some(t) && t@ == int_text(n),
        None => m.iso is None,
    }
}

fn read_number(t: &Option<String>) -> (r: Option<Fraction>)
    ensures
        r == number_value(opt_view(*t)),
        r matches Some(f) ==> f.wf() && f.den <= 1_000_000_000_000_000_000_000_000_000_000_000_000
            && -1_000_000_000_000_000_000_000_000_000_000_000_000 <= f.num <= 1_000_000_000_000_000_000_000_000_000_000_000_000,
{
    match t {
        Some(t) => parse_decimal(t.as_str()),
        None => None,
    }
}

/// Builds the deep record from the reported fields.
pub fn deep_record(f: DeepFields) -> (r: PhotoMetadata)
    ensures
        is_deep_record(report_of(f), r),
        r.wf(),
{
    let iso = match f.iso {
        Some(n) => Some(iso_text(n)),
        None => None,
    };
    let lat = read_number(&f.latitude);
    let lon = read_number(&f.longitude);
    let (latitude, longitude) = if lat.is_some() && lon.is_some() {
        (lat, lon)
    } else {
        (None, None)
    };
    PhotoMetadata {
        latitude,
        longitude,
        altitude: read_number(&f.altitude),
        timestamp: None,
        make: f.make,
        model: f.model,
        lens: f.lens,
        exposure: f.exposure,
        f_number: f.f_number,
        iso,
    }
}

/// Reads the deep scanner's output. A record exactly when the scanner exited
/// successfully and printed a JSON array with a first element: the deep
/// record of what that element reports, each missing or mistyped field absent.
pub fn deep_scan_result(exit_success: bool, stdout: &str) -> (r: Option<PhotoMetadata>)
    ensures
        (r is Some) == (exit_success && json_first_item_exists(stdout@)),
        r matches Some(m) ==> is_deep_record(report_in_output(stdout@), m) && m.wf(),
{
    if !exit_success || !first_item_exists(stdout) {
        return None;
    }
    let fields = DeepFields {
        latitude: first_item_number(stdout, "GPSLatitude"),
        longitude: first_item_number(stdout, "GPSLongitude"),
        altitude: first_item_number(stdout, "GPSAltitude"),
        make: first_item_str(stdout, "Make"),
        model: first_item_str(stdout, "Model"),
        lens: first_item_str(stdout, "LensModel"),
        exposure: first_item_str(stdout, "ExposureTime"),
        f_number: first_item_tenths(stdout, "FNumber"),
        iso: first_item_i64(stdout, "ISO"),
    };
    let ghost g = fields;
    assert(report_of(g) == report_in_output(stdout@));
    Some(deep_record(fields))
}

} // verus!
