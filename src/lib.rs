//! Photo geolocation metadata: exact coordinate conversion, multi-source
//! reconciliation, reverse-geocoding request and response handling, and the
//! sequencing of a batch run.

pub mod coords;
pub mod metadata;
pub mod json;
pub mod geocode;
pub mod batch;
pub mod discover;
pub mod text;
pub mod decimal;
pub mod deep;
