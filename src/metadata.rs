use vstd::prelude::*;
use crate::coords::{convert_latlng, decimal_degrees, Fraction, LatLng, URational};

verus! {

/// The canonical metadata record of one photo. Every field may be absent.
/// Coordinates and altitude are exact fractions; altitude is taken as
/// metres above sea level (the altitude reference tag is not applied).
#[derive(Debug)]
pub struct PhotoMetadata {
    pub latitude: Option<Fraction>,
    pub longitude: Option<Fraction>,
    pub altitude: Option<Fraction>,
    pub timestamp: Option<String>,
    pub make: Option<String>,
    pub model: Option<String>,
    pub lens: Option<String>,
    pub exposure: Option<String>,
    pub f_number: Option<String>,
    pub iso: Option<String>,
}

impl PhotoMetadata {
    /// Latitude and longitude are present together or not at all.
    pub open spec fn wf(self) -> bool {
        &&& self.latitude.is_some() == self.longitude.is_some()
        &&& self.latitude matches Some(f) ==> f.wf()
        &&& self.longitude matches Some(f) ==> f.wf()
    }

    pub open spec fn is_empty(self) -> bool {
        &&& self.latitude is None
        &&& self.longitude is None
        &&& self.altitude is None
        &&& self.timestamp is None
        &&& self.make is None
        &&& self.model is None
        &&& self.lens is None
        &&& self.exposure is None
        &&& self.f_number is None
        &&& self.iso is None
    }

    /// A record with every field absent.
    pub fn empty() -> (r: PhotoMetadata)
        ensures
            r.is_empty(),
            r.wf(),
    {
        PhotoMetadata {
            latitude: None,
            longitude: None,
            altitude: None,
            timestamp: None,
            make: None,
            model: None,
            lens: None,
            exposure: None,
            f_number: None,
            iso: None,
        }
    }

    /// Both coordinates are known: the record can be reverse-geocoded.
    pub fn has_gps(&self) -> (r: bool)
        ensures
            r == (self.latitude.is_some() && self.longitude.is_some()),
    {
        self.latitude.is_some() && self.longitude.is_some()
    }
}

/// Both coordinates are present with finite values (positive denominators).
pub open spec fn has_finite_pair(m: PhotoMetadata) -> bool {
    &&& m.latitude matches Some(f) && f.wf()
    &&& m.longitude matches Some(g) && g.wf()
}

/// The record with a lone or non-finite coordinate dropped, with its partner.
pub open spec fn gps_paired(m: PhotoMetadata) -> PhotoMetadata {
    if has_finite_pair(m) || (m.latitude is None && m.longitude is None) {
        m
    } else {
        PhotoMetadata { latitude: None, longitude: None, ..m }
    }
}

/// One field under the merge policy: the deep value when present, else the primary one.
pub open spec fn pick<T>(deep: Option<T>, primary: Option<T>) -> Option<T> {
    if deep is Some {
        deep
    } else {
        primary
    }
}

/// The merge of a primary record with an optional deep-scan record, field by
/// field, after each source's lone coordinate has been dropped.
pub open spec fn merged(primary: PhotoMetadata, deep: Option<PhotoMetadata>) -> PhotoMetadata {
    let p = gps_paired(primary);
    match deep {
        None => p,
        Some(d0) => {
            let d = gps_paired(d0);
            PhotoMetadata {
                latitude: pick(d.latitude, p.latitude),
                longitude: pick(d.longitude, p.longitude),
                altitude: pick(d.altitude, p.altitude),
                timestamp: pick(d.timestamp, p.timestamp),
                make: pick(d.make, p.make),
                model: pick(d.model, p.model),
                lens: pick(d.lens, p.lens),
                exposure: pick(d.exposure, p.exposure),
                f_number: pick(d.f_number, p.f_number),
                iso: pick(d.iso, p.iso),
            }
        },
    }
}

fn pick_field<T>(deep: Option<T>, primary: Option<T>) -> (r: Option<T>)
    ensures
        r == pick(deep, primary),
{
    match deep {
        Some(v) => Some(v),
        None => primary,
    }
}

/// Drops a lone latitude or longitude, or a pair with a zero denominator: a
/// source with only one, or with no finite value, has no GPS data.
pub fn pair_gps(m: PhotoMetadata) -> (r: PhotoMetadata)
    ensures
        r == gps_paired(m),
        r.wf(),
{
    let finite = match (&m.latitude, &m.longitude) {
        (Some(f), Some(g)) => f.den > 0 && g.den > 0,
        _ => false,
    };
    if finite || (m.latitude.is_none() && m.longitude.is_none()) {
        m
    } else {
        PhotoMetadata { latitude: None, longitude: None, ..m }
    }
}

/// Combines the embedded reader's record with the deep scanner's record, if
/// the deep scan ran and succeeded. A field the deep record holds wins;
/// otherwise the primary value is kept; nothing present is ever discarded
/// except a coordinate without its partner.
pub fn merge(primary: PhotoMetadata, deep: Option<PhotoMetadata>) -> (r: PhotoMetadata)
    ensures
        r == merged(primary, deep),
        r.wf(),
{
    let p = pair_gps(primary);
    match deep {
        None => p,
        Some(d0) => {
            let d = pair_gps(d0);
            PhotoMetadata {
                latitude: pick_field(d.latitude, p.latitude),
                longitude: pick_field(d.longitude, p.longitude),
                altitude: pick_field(d.altitude, p.altitude),
                timestamp: pick_field(d.timestamp, p.timestamp),
                make: pick_field(d.make, p.make),
                model: pick_field(d.model, p.model),
                lens: pick_field(d.lens, p.lens),
                exposure: pick_field(d.exposure, p.exposure),
                f_number: pick_field(d.f_number, p.f_number),
                iso: pick_field(d.iso, p.iso),
            }
        },
    }
}

/// Without a deep record, merging leaves a well-formed primary record unchanged.
pub proof fn lemma_merge_without_deep(primary: PhotoMetadata)
    requires
        primary.wf(),
    ensures
        merged(primary, None) == primary,
{
}

/// Every merged record exposes both coordinates or neither.
pub proof fn lemma_merge_pairs_gps(primary: PhotoMetadata, deep: Option<PhotoMetadata>)
    ensures
        merged(primary, deep).wf(),
{
}

/// Merging well-formed records is additive with deep priority: each field is
/// the deep value when the deep record holds one, else the primary value.
pub proof fn lemma_merge_is_fieldwise(primary: PhotoMetadata, deep: PhotoMetadata)
    requires
        primary.wf(),
        deep.wf(),
    ensures
        ({
            let m = merged(primary, Some(deep));
            &&& m.latitude == pick(deep.latitude, primary.latitude)
            &&& m.longitude == pick(deep.longitude, primary.longitude)
            &&& m.altitude == pick(deep.altitude, primary.altitude)
            &&& m.timestamp == pick(deep.timestamp, primary.timestamp)
            &&& m.make == pick(deep.make, primary.make)
            &&& m.model == pick(deep.model, primary.model)
            &&& m.lens == pick(deep.lens, primary.lens)
            &&& m.exposure == pick(deep.exposure, primary.exposure)
            &&& m.f_number == pick(deep.f_number, primary.f_number)
            &&& m.iso == pick(deep.iso, primary.iso)
        }),
{
}

/// The EXIF tags the embedded reader maps onto the record.
#[derive(Clone, Copy, Debug, PartialEq, Eq, Structural)]
pub enum ExifField {
    Make,
    Model,
    LensModel,
    LensInfo,
    ExposureTime,
    FNumber,
    IsoSpeedRatings,
    DateTimeOriginal,
    CreateDate,
    Other,
}

/// One EXIF entry: its tag and its value rendered as text.
#[derive(Debug)]
pub struct ExifEntry {
    pub field: ExifField,
    pub value: String,
}

/// The GPS block of an EXIF container.
#[derive(Clone, Copy, Debug, PartialEq, Eq, Structural)]
pub struct GpsInfo {
    pub latitude: LatLng,
    pub latitude_ref: char,
    pub longitude: LatLng,
    pub longitude_ref: char,
    pub altitude: URational,
}

/// Altitude in metres, when its denominator is not zero.
pub open spec fn altitude_of(a: URational) -> Option<Fraction> {
    if a.den == 0 {
        None
    } else {
        Some(Fraction { num: a.num as i128, den: a.den as u128 })
    }
}

/// The record's coordinates and altitude from a GPS block: both coordinates
/// when both have a finite value, otherwise neither.
pub open spec fn gps_fields(g: Option<GpsInfo>, m: PhotoMetadata) -> PhotoMetadata {
    match g {
        None => m,
        Some(g) => {
            let lat = decimal_degrees(g.latitude, g.latitude_ref);
            let lon = decimal_degrees(g.longitude, g.longitude_ref);
            if lat is Some && lon is Some {
                PhotoMetadata { latitude: lat, longitude: lon, altitude: altitude_of(g.altitude), ..m }
            } else {
                PhotoMetadata { altitude: altitude_of(g.altitude), ..m }
            }
        },
    }
}

/// The record after one EXIF entry: the last entry of a tag wins, except the
/// capture time, where the first of `DateTimeOriginal` and `CreateDate` wins.
pub open spec fn with_entry(m: PhotoMetadata, field: ExifField, value: String) -> PhotoMetadata {
    match field {
        ExifField::Make => PhotoMetadata { make: Some(value), ..m },
        ExifField::Model => PhotoMetadata { model: Some(value), ..m },
        ExifField::LensModel | ExifField::LensInfo => PhotoMetadata { lens: Some(value), ..m },
        ExifField::ExposureTime => PhotoMetadata { exposure: Some(value), ..m },
        ExifField::FNumber => PhotoMetadata { f_number: Some(value), ..m },
        ExifField::IsoSpeedRatings => PhotoMetadata { iso: Some(value), ..m },
        ExifField::DateTimeOriginal | ExifField::CreateDate => if m.timestamp is None {
            PhotoMetadata { timestamp: Some(value), ..m }
        } else {
            m
        },
        ExifField::Other => m,
    }
}

/// The record after the entries in order.
pub open spec fn with_entries(m: PhotoMetadata, entries: Seq<ExifEntry>) -> PhotoMetadata
    decreases entries.len(),
{
    if entries.len() == 0 {
        m
    } else {
        with_entry(
            with_entries(m, entries.drop_last()),
            entries.last().field,
            entries.last().value,
        )
    }
}

/// The empty record in spec form.
pub open spec fn empty_metadata() -> PhotoMetadata {
    PhotoMetadata {
        latitude: None,
        longitude: None,
        altitude: None,
        timestamp: None,
        make: None,
        model: None,
        lens: None,
        exposure: None,
        f_number: None,
        iso: None,
    }
}

/// What the embedded reader yields for a GPS block and a list of entries.
pub open spec fn extracted(gps: Option<GpsInfo>, entries: Seq<ExifEntry>) -> PhotoMetadata {
    with_entries(gps_fields(gps, empty_metadata()), entries)
}

fn apply_entry(m: &mut PhotoMetadata, field: ExifField, value: String)
    ensures
        *final(m) == with_entry(*old(m), field, value),
{
    match field {
        ExifField::Make => m.make = Some(value),
        ExifField::Model => m.model = Some(value),
        ExifField::LensModel | ExifField::LensInfo => m.lens = Some(value),
        ExifField::ExposureTime => m.exposure = Some(value),
        ExifField::FNumber => m.f_number = Some(value),
        ExifField::IsoSpeedRatings => m.iso = Some(value),
        ExifField::DateTimeOriginal | ExifField::CreateDate => {
            if m.timestamp.is_none() {
                m.timestamp = Some(value);
            }
        },
        ExifField::Other => {},
    }
}

/// Builds the embedded reader's record from the container's GPS block, if
/// any, and its entries in container order.
pub fn extract_metadata(gps: Option<GpsInfo>, entries: &Vec<ExifEntry>) -> (r: PhotoMetadata)
    ensures
        r == extracted(gps, entries@),
        r.wf(),
{
    let mut meta = PhotoMetadata::empty();
    if let Some(g) = gps {
        let lat = convert_latlng(&g.latitude, g.latitude_ref);
        let lon = convert_latlng(&g.longitude, g.longitude_ref);
        let alt = if g.altitude.den == 0 {
            None
        } else {
            Some(Fraction { num: g.altitude.num as i128, den: g.altitude.den as u128 })
        };
        if lat.is_some() && lon.is_some() {
            meta.latitude = lat;
            meta.longitude = lon;
        }
        meta.altitude = alt;
    }
    assert(meta == gps_fields(gps, empty_metadata()));
    let ghost start = meta;
    let ghost all = entries@;
    let mut i: usize = 0;
    let n = entries.len();
    while i < n
        invariant
            n == all.len(),
            all == entries@,
            0 <= i <= n,
            meta == with_entries(start, all.subrange(0, i as int)),
            meta.wf(),
        decreases n - i,
    {
        let e = &entries[i];
        assert(all.subrange(0, i + 1).drop_last() == all.subrange(0, i as int));
        apply_entry(&mut meta, e.field, e.value.clone());
        i = i + 1;
    }
    assert(all.subrange(0, n as int) == all);
    meta
}

/// Why the embedded reader produced no record.
#[derive(Debug)]
pub enum ExtractionError {
    /// The file parses but carries no recognized metadata container.
    NoHeaders,
    /// The container format is not recognized.
    Unsupported,
    /// The file is missing or unreadable.
    IoFailure(String),
}

/// What the embedded reader contributes to the merge: its record, or the
/// all-absent record when it failed.
pub fn primary_record(outcome: Result<PhotoMetadata, ExtractionError>) -> (r: PhotoMetadata)
    ensures
        outcome matches Ok(m) ==> r == m,
        outcome is Err ==> r.is_empty() && r.wf(),
{
    match outcome {
        Ok(m) => m,
        Err(_) => PhotoMetadata::empty(),
    }
}

} // verus!
