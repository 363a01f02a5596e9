use recog::{RecogError, RecogResult};

#[test]
fn test_error_creation() {
    let custom_error = RecogError::custom("test error");
    assert!(matches!(custom_error, RecogError::Custom { .. }));

    let fingerprint_error = RecogError::invalid_fingerprint_data("invalid pattern");
    assert!(matches!(fingerprint_error, RecogError::InvalidFingerprintData { .. }));

    let param_error = RecogError::parameter("missing parameter");
    assert!(matches!(param_error, RecogError::Parameter { .. }));

    let matching_error = RecogError::matching("no match found");
    assert!(matches!(matching_error, RecogError::Matching { .. }));

    let config_error = RecogError::configuration("invalid config");
    assert!(matches!(config_error, RecogError::Configuration { .. }));
}

#[test]
fn test_error_display() {
    let error = RecogError::custom("test message");
    assert_eq!(error.display_string(), "Error: test message");
}

#[test]
fn test_result_alias() {
    let returns_result = || -> RecogResult<String> { Ok("success".to_string()) };
    let returns_error = || -> RecogResult<String> { Err(RecogError::custom("failed")) };

    assert!(returns_result().is_ok());
    assert!(returns_error().is_err());
}

#[test]
fn test_error_display_prefixes() {
    assert_eq!(
        RecogError::parameter("p").display_string(),
        "Parameter error: p"
    );
    assert_eq!(
        RecogError::matching("m").display_string(),
        "Matching error: m"
    );
    assert_eq!(
        RecogError::configuration("c").display_string(),
        "Configuration error: c"
    );
    assert_eq!(
        RecogError::invalid_fingerprint_data("d").display_string(),
        "Invalid fingerprint data: d"
    );
}
