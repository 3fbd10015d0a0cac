use geopic::coords::Fraction;
use geopic::geocode::{classify_response, display_name_of, interpret_response, reverse_url, GeoError};

#[test]
fn response_statuses_are_classified() {
    assert!(matches!(classify_response(200, Some("X".to_string())), Ok(ref s) if s == "X"));
    assert!(matches!(classify_response(204, Some("Y".to_string())), Ok(ref s) if s == "Y"));
    assert!(matches!(classify_response(429, Some("X".to_string())), Err(GeoError::RateLimited)));
    assert!(matches!(classify_response(500, None), Err(GeoError::ApiError(500))));
    assert!(matches!(classify_response(404, None), Err(GeoError::ApiError(404))));
    assert!(matches!(classify_response(302, None), Err(GeoError::ApiError(302))));
    assert!(matches!(classify_response(200, None), Err(GeoError::NetworkError(_))));
}

#[test]
fn response_body_yields_display_name() {
    let body = r#"{"place_id":1,"display_name":"Times Square, Manhattan, New York","address":{}}"#;
    assert_eq!(display_name_of(body).as_deref(), Some("Times Square, Manhattan, New York"));
    assert_eq!(display_name_of("{}"), None);
    assert_eq!(display_name_of("not json"), None);
    assert_eq!(display_name_of(r#"{"display_name":5}"#), None);
    assert!(matches!(interpret_response(200, body), Ok(ref s) if s.starts_with("Times Square")));
    assert!(matches!(interpret_response(429, body), Err(GeoError::RateLimited)));
    assert!(matches!(interpret_response(200, "[]"), Err(GeoError::NetworkError(_))));
}

#[test]
fn request_url_carries_coordinates() {
    let lat = Fraction { num: 146730, den: 3600 };
    let lon = Fraction { num: -739855, den: 10000 };
    assert_eq!(
        reverse_url(lat, lon).unwrap(),
        "https://nominatim.openstreetmap.org/reverse?format=json&lat=40.7583333&lon=-73.9855&zoom=18&addressdetails=1"
    );
    let small = Fraction { num: -1, den: 3 };
    let url = reverse_url(small, Fraction { num: 0, den: 1 }).unwrap();
    assert!(url.contains("lat=-0.3333333&lon=0&"));
    assert_eq!(
        reverse_url(Fraction { num: 405, den: 10 }, Fraction { num: -325, den: 100 }).unwrap(),
        "https://nominatim.openstreetmap.org/reverse?format=json&lat=40.5&lon=-3.25&zoom=18&addressdetails=1"
    );
    assert!(reverse_url(Fraction { num: 1, den: 0 }, lon).is_none());
}

#[test]
fn transient_errors_are_told_apart() {
    assert!(GeoError::RateLimited.is_transient());
    assert!(GeoError::Timeout.is_transient());
    assert!(!GeoError::ApiError(500).is_transient());
    assert!(!GeoError::NetworkError("refused".to_string()).is_transient());
}
