use vstd::prelude::*;
use crate::coords::Fraction;
use crate::geocode::GeoError;
use crate::metadata::{merge, merged, PhotoMetadata};

verus! {

/// Minimum time between the starts of two reverse-geocoding lookups, in ms.
pub const LOOKUP_INTERVAL_MS: u64 = 1000;

/// One exported row: a file's merged metadata, its path and its address.
#[derive(Debug)]
pub struct ExportRecord {
    pub file_path: String,
    pub latitude: Option<Fraction>,
    pub longitude: Option<Fraction>,
    pub altitude: Option<Fraction>,
    pub timestamp: Option<String>,
    pub make: Option<String>,
    pub model: Option<String>,
    pub lens: Option<String>,
    pub exposure: Option<String>,
    pub f_number: Option<String>,
    pub iso: Option<String>,
    pub address: Option<String>,
}

/// `r` flattens `meta` with its file path and address.
pub open spec fn is_record_of(r: ExportRecord, file_path: String, meta: PhotoMetadata, address: Option<String>) -> bool {
    &&& r.file_path == file_path
    &&& r.latitude == meta.latitude
    &&& r.longitude == meta.longitude
    &&& r.altitude == meta.altitude
    &&& r.timestamp == meta.timestamp
    &&& r.make == meta.make
    &&& r.model == meta.model
    &&& r.lens == meta.lens
    &&& r.exposure == meta.exposure
    &&& r.f_number == meta.f_number
    &&& r.iso == meta.iso
    &&& r.address == address
}

impl ExportRecord {
    pub fn from_meta(file_path: String, meta: PhotoMetadata, address: Option<String>) -> (r: ExportRecord)
        ensures
            is_record_of(r, file_path, meta, address),
    {
        ExportRecord {
            file_path,
            latitude: meta.latitude,
            longitude: meta.longitude,
            altitude: meta.altitude,
            timestamp: meta.timestamp,
            make: meta.make,
            model: meta.model,
            lens: meta.lens,
            exposure: meta.exposure,
            f_number: meta.f_number,
            iso: meta.iso,
            address,
        }
    }
}

/// How long to wait before a lookup that would start at `now_ms`, given the
/// start of the previous lookup: nothing before the first one, else whatever
/// remains of the interval (saturated at the largest `u64`).
pub open spec fn pacing_wait(last_lookup_ms: Option<u64>, now_ms: u64) -> u64 {
    match last_lookup_ms {
        None => 0,
        Some(t) => if now_ms >= t + LOOKUP_INTERVAL_MS {
            0
        } else if t + LOOKUP_INTERVAL_MS - now_ms > u64::MAX {
            u64::MAX
        } else {
            (t + LOOKUP_INTERVAL_MS - now_ms) as u64
        },
    }
}

/// The wait before a lookup that would start at `now_ms`.
pub fn lookup_wait(last_lookup_ms: Option<u64>, now_ms: u64) -> (r: u64)
    ensures
        r == pacing_wait(last_lookup_ms, now_ms),
{
    match last_lookup_ms {
        None => 0,
        Some(t) => {
            let due = t as u128 + LOOKUP_INTERVAL_MS as u128;
            if now_ms as u128 >= due {
                0
            } else if due - now_ms as u128 > u64::MAX as u128 {
                u64::MAX
            } else {
                (due - now_ms as u128) as u64
            }
        },
    }
}

/// A lookup that starts no earlier than the wait asks is at least the
/// interval after the previous lookup's start.
pub proof fn lemma_pacing(last: u64, now_ms: u64, start_ms: u64)
    requires
        last + LOOKUP_INTERVAL_MS <= u64::MAX,
        start_ms >= now_ms + pacing_wait(Some(last), now_ms),
    ensures
        start_ms >= last + LOOKUP_INTERVAL_MS,
{
}

/// What the caller does after a file's sources have been read.
#[derive(Debug)]
pub enum FileStep {
    /// Wait `wait_ms`, then look up these coordinates and report the outcome.
    Geocode { latitude: Fraction, longitude: Fraction, wait_ms: u64 },
    /// The file is recorded without an address; go on with the next file.
    Recorded,
}

/// A batch run over discovered files, processed strictly in order. Holds the
/// records so far, the merged record of a file awaiting its lookup, and the
/// start time of the last lookup.
pub struct Batch {
    pub files: Vec<String>,
    pub records: Vec<ExportRecord>,
    pub pending: Option<PhotoMetadata>,
    pub last_lookup_ms: Option<u64>,
}

impl Batch {
    /// One record per processed file, in order; a pending record belongs to
    /// the next file and has both coordinates.
    pub open spec fn wf(self) -> bool {
        &&& self.records@.len() <= self.files@.len()
        &&& forall|i: int| 0 <= i < self.records@.len() ==> (#[trigger] self.records@[i]).file_path == self.files@[i]
        &&& self.pending matches Some(m) ==> {
            &&& self.records@.len() < self.files@.len()
            &&& m.latitude is Some
            &&& m.longitude is Some
        }
    }

    /// Every discovered file has its record.
    pub open spec fn done(self) -> bool {
        self.records@.len() == self.files@.len()
    }

    /// Starts a run over the discovered files.
    pub fn new(files: Vec<String>) -> (r: Batch)
        ensures
            r.wf(),
            r.files@ == files@,
            r.records@.len() == 0,
            r.pending is None,
            r.last_lookup_ms is None,
    {
        Batch { files, records: Vec::new(), pending: None, last_lookup_ms: None }
    }

    pub fn is_done(&self) -> (r: bool)
        requires
            self.wf(),
        ensures
            r == self.done(),
    {
        self.records.len() == self.files.len()
    }

    /// The file to process next, unless all are done.
    pub fn current_file(&self) -> (r: Option<&String>)
        requires
            self.wf(),
        ensures
            self.done() ==> r is None,
            !self.done() ==> r == Some(&self.files@[self.records@.len() as int]),
    {
        if self.records.len() < self.files.len() {
            Some(&self.files[self.records.len()])
        } else {
            None
        }
    }

    /// Takes the current file's embedded record and, if the deep scan ran and
    /// succeeded, its deep record. A merged record with both coordinates is
    /// held for its lookup, after the wait that pacing asks; any other is
    /// recorded at once without an address.
    pub fn on_extracted(&mut self, primary: PhotoMetadata, deep: Option<PhotoMetadata>, now_ms: u64) -> (r: FileStep)
        requires
            old(self).wf(),
            !old(self).done(),
            old(self).pending is None,
        ensures
            final(self).wf(),
            final(self).files@ == old(self).files@,
            final(self).last_lookup_ms == old(self).last_lookup_ms,
            ({
                let m = merged(primary, deep);
                if m.latitude is Some && m.longitude is Some {
                    &&& r == FileStep::Geocode {
                        latitude: m.latitude->0,
                        longitude: m.longitude->0,
                        wait_ms: pacing_wait(old(self).last_lookup_ms, now_ms),
                    }
                    &&& final(self).pending == Some(m)
                    &&& final(self).records@ == old(self).records@
                } else {
                    &&& r == FileStep::Recorded
                    &&& final(self).pending is None
                    &&& final(self).records@.len() == old(self).records@.len() + 1
                    &&& final(self).records@.drop_last() == old(self).records@
                    &&& is_record_of(
                        final(self).records@.last(),
                        old(self).files@[old(self).records@.len() as int],
                        m,
                        None,
                    )
                }
            }),
    {
        let meta = merge(primary, deep);
        match (meta.latitude, meta.longitude) {
            (Some(latitude), Some(longitude)) => {
                let wait_ms = lookup_wait(self.last_lookup_ms, now_ms);
                self.pending = Some(meta);
                FileStep::Geocode { latitude, longitude, wait_ms }
            },
            _ => {
                let path = self.files[self.records.len()].clone();
                let rec = ExportRecord::from_meta(path, meta, None);
                self.records.push(rec);
                FileStep::Recorded
            },
        }
    }

    /// Takes the outcome of the pending lookup, which started at `started_ms`,
    /// and records the file: with the address on success, without one on any
    /// failure. The run goes on with the next file either way.
    pub fn on_geocoded(&mut self, result: Result<String, GeoError>, started_ms: u64)
        requires
            old(self).wf(),
            old(self).pending is Some,
        ensures
            geocoded_step(*old(self), *final(self), result, started_ms),
    {
        let meta = self.pending.take().unwrap();
        let address = match result {
            Ok(a) => Some(a),
            Err(_) => None,
        };
        let path = self.files[self.records.len()].clone();
        let rec = ExportRecord::from_meta(path, meta, address);
        self.records.push(rec);
        self.last_lookup_ms = Some(started_ms);
        assert(self.records@.drop_last() =~= old(self).records@);
    }
}

/// `after` is `before` once the pending file's lookup, started at
/// `started_ms`, ended with `result`.
pub open spec fn geocoded_step(before: Batch, after: Batch, result: Result<String, GeoError>, started_ms: u64) -> bool {
    &&& after.wf()
    &&& after.files@ == before.files@
    &&& after.pending is None
    &&& after.last_lookup_ms == Some(started_ms)
    &&& after.records@.len() == before.records@.len() + 1
    &&& after.records@.drop_last() == before.records@
    &&& is_record_of(
        after.records@.last(),
        before.files@[before.records@.len() as int],
        before.pending->0,
        match result {
            Ok(a) => Some(a),
            Err(_) => None,
        },
    )
}

/// A failed lookup (rate limited or any other error) leaves the run exactly
/// where a successful one would: same files, same number of records, nothing
/// pending, same pacing clock, and, while files remain, ready for the next.
pub proof fn lemma_failure_isolation(
    before: Batch,
    failed: Batch,
    succeeded: Batch,
    error: GeoError,
    address: String,
    started_ms: u64,
)
    requires
        before.wf(),
        before.pending is Some,
        geocoded_step(before, failed, Err(error), started_ms),
        geocoded_step(before, succeeded, Ok(address), started_ms),
    ensures
        failed.files@ == succeeded.files@,
        failed.records@.len() == succeeded.records@.len(),
        failed.last_lookup_ms == succeeded.last_lookup_ms,
        failed.pending is None,
        failed.wf(),
        before.records@.len() + 1 < before.files@.len() ==> !failed.done(),
        failed.records@.last().address is None,
        succeeded.records@.last().address == Some(address),
{
}

/// A finished run holds exactly one record per discovered file, in discovery
/// order, whatever each file's extraction or lookup outcome.
pub proof fn lemma_one_record_per_file(b: Batch)
    requires
        b.wf(),
        b.done(),
    ensures
        b.records@.len() == b.files@.len(),
        forall|i: int| 0 <= i < b.files@.len() ==> (#[trigger] b.records@[i]).file_path == b.files@[i],
{
}

/// A run over no files is finished at once, with no records.
pub proof fn lemma_empty_run(b: Batch)
    requires
        b.wf(),
        b.files@.len() == 0,
    ensures
        b.done(),
        b.records@.len() == 0,
{
}

/// How the records are written out.
#[derive(Clone, Copy, Debug, PartialEq, Eq, Structural)]
pub enum ExportFormat {
    Csv,
    Json,
}

/// The format an output path asks for: CSV when it ends in `.csv`, JSON otherwise.
pub open spec fn format_for(path: Seq<char>) -> ExportFormat {
    if path.len() >= 4 && path.skip(path.len() - 4) == ".csv"@ {
        ExportFormat::Csv
    } else {
        ExportFormat::Json
    }
}

/// Chooses the serializer from the output path's ending.
pub fn export_format(path: &str) -> (r: ExportFormat)
    ensures
        r == format_for(path@),
{
    proof {
        reveal_strlit(".csv");
    }
    let n = path.unicode_len();
    if n < 4 {
        return ExportFormat::Json;
    }
    let ghost tail = path@.skip(n - 4);
    let a = path.get_char(n - 4);
    let b = path.get_char(n - 3);
    let c = path.get_char(n - 2);
    let d = path.get_char(n - 1);
    if a == '.' && b == 'c' && c == 's' && d == 'v' {
        assert(tail =~= ".csv"@);
        ExportFormat::Csv
    } else {
        assert(tail[0] == a && tail[1] == b && tail[2] == c && tail[3] == d);
        ExportFormat::Json
    }
}

} // verus!
