use vstd::prelude::*;
use crate::coords::Fraction;
use crate::json::{json_str_member, opt_view, str_member};
use crate::text::{short_text, write_short};

verus! {

/// Why a reverse-geocoding lookup produced no address.
#[derive(Debug)]
pub enum GeoError {
    /// The provider answered 429: too many requests.
    RateLimited,
    /// The request did not complete within the timeout.
    Timeout,
    /// Another transport failure, or a success response that could not be read.
    NetworkError(String),
    /// The provider answered with another non-success status.
    ApiError(u16),
}

impl GeoError {
    /// Whether a later attempt may succeed: a rate limit or a timeout.
    pub fn is_transient(&self) -> (r: bool)
        ensures
            r == (self is RateLimited || self is Timeout),
    {
        match self {
            GeoError::RateLimited | GeoError::Timeout => true,
            _ => false,
        }
    }
}

pub open spec fn is_success_status(status: u16) -> bool {
    200 <= status <= 299
}

/// Detail text of the `NetworkError` for a success response without a
/// readable `display_name`.
pub const UNREADABLE_BODY: &'static str = "response body has no display_name";

/// `r` is the outcome of a lookup with this response status and the
/// `display_name` read from its body, if one could be read.
pub open spec fn is_response_outcome(status: u16, display_name: Option<Seq<char>>, r: Result<String, GeoError>) -> bool {
    if is_success_status(status) {
        match display_name {
            Some(name) => r matches Ok(s) && s@ == name,
            None => r matches Err(GeoError::NetworkError(d)) && d@ == UNREADABLE_BODY@,
        }
    } else if status == 429 {
        r matches Err(GeoError::RateLimited)
    } else {
        r matches Err(GeoError::ApiError(s)) && s == status
    }
}

/// Classifies a response: a success status with a name is the address; 429
/// is `RateLimited`; any other failure status is `ApiError`.
pub fn classify_response(status: u16, display_name: Option<String>) -> (r: Result<String, GeoError>)
    ensures
        is_response_outcome(status, opt_view(display_name), r),
{
    if 200 <= status && status <= 299 {
        match display_name {
            Some(name) => Ok(name),
            None => Err(GeoError::NetworkError(String::from_str(UNREADABLE_BODY))),
        }
    } else if status == 429 {
        Err(GeoError::RateLimited)
    } else {
        Err(GeoError::ApiError(status))
    }
}

/// The `display_name` string of a JSON object, if the body is one.
pub fn display_name_of(body: &str) -> (r: Option<String>)
    ensures
        opt_view(r) == json_str_member(body@, "display_name"@),
{
    str_member(body, "display_name")
}

/// Interprets one response: status and body text to address or error. Only a
/// success status reads the body.
pub fn interpret_response(status: u16, body: &str) -> (r: Result<String, GeoError>)
    ensures
        is_response_outcome(status, json_str_member(body@, "display_name"@), r),
{
    if 200 <= status && status <= 299 {
        let name = display_name_of(body);
        classify_response(status, name)
    } else {
        classify_response(status, None)
    }
}

/// Reverse-geocoding endpoint, up to the latitude value.
pub const REVERSE_ENDPOINT: &'static str = "https://nominatim.openstreetmap.org/reverse?format=json&lat=";

/// The client-agent header value the provider's usage policy asks for.
pub const CLIENT_AGENT: &'static str = "GeoPic-Official-Mod/3.0 (Contact: efe-rust-dev)";

/// Timeout of one lookup request, in seconds.
pub const REQUEST_TIMEOUT_SECS: u64 = 10;

/// Most fractional digits of the coordinates sent to the provider.
pub const COORDINATE_PLACES: u32 = 7;

/// Coordinates the request can render: well formed, denominators in range.
pub open spec fn renderable(f: Fraction) -> bool {
    f.wf() && f.den < 0x1000_0000_0000_0000_0000_0000_0000_0000
}

/// The request URL for a point: fixed zoom and address details.
pub open spec fn reverse_url_text(lat: Fraction, lon: Fraction) -> Seq<char> {
    REVERSE_ENDPOINT@ + short_text(lat, COORDINATE_PLACES as nat) + "&lon="@
        + short_text(lon, COORDINATE_PLACES as nat) + "&zoom=18&addressdetails=1"@
}

/// Builds the one request of a lookup; `None` for a coordinate that is not
/// well formed or whose denominator is out of range.
pub fn reverse_url(lat: Fraction, lon: Fraction) -> (r: Option<String>)
    ensures
        r is Some <==> renderable(lat) && renderable(lon),
        r matches Some(u) ==> u@ == reverse_url_text(lat, lon),
{
    if lat.den == 0 || lat.den >= 0x1000_0000_0000_0000_0000_0000_0000_0000 || lon.den == 0
        || lon.den >= 0x1000_0000_0000_0000_0000_0000_0000_0000 {
        return None;
    }
    let mut url = String::from_str(REVERSE_ENDPOINT);
    write_short(&mut url, lat, COORDINATE_PLACES);
    url.append("&lon=");
    write_short(&mut url, lon, COORDINATE_PLACES);
    url.append("&zoom=18&addressdetails=1");
    Some(url)
}

} // verus!
