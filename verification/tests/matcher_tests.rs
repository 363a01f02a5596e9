use base64::Engine;
use recog::{Fingerprint, FingerprintDatabase, Matcher, Param, RecogError};

fn apache_db() -> FingerprintDatabase {
    let mut fp = Fingerprint::new(r"Apache/(\d+\.\d+)", "Apache HTTP Server").unwrap();
    fp.add_param(Param::new(1, "version".to_string()));
    let mut db = FingerprintDatabase::new();
    db.add_fingerprint(fp);
    db
}

#[test]
fn test_basic_matching() {
    let matcher = Matcher::new(apache_db());

    let results = matcher.match_text("Server: Apache/2.4.41");
    assert_eq!(results.len(), 1);

    let result = &results[0];
    assert_eq!(result.fingerprint.description, "Apache HTTP Server");
    // With `(\d+\.\d+)` the greedy scan stops before the second dot.
    assert_eq!(result.params.get("version"), Some(&"2.4".to_string()));
}

#[test]
fn test_no_match() {
    let matcher = Matcher::new(apache_db());

    let results = matcher.match_text("nginx/1.20.0");
    assert_eq!(results.len(), 0);
}

#[test]
fn test_base64_matching() {
    let fp = Fingerprint::new("test", "Test pattern").unwrap();
    let mut db = FingerprintDatabase::new();
    db.add_fingerprint(fp);
    let matcher = Matcher::new(db);

    // "test" in base64.
    let results = matcher.match_base64("dGVzdA==").unwrap();
    assert_eq!(results.len(), 1);
}

#[test]
fn test_base64_of_encoded_input_matches() {
    let fp = Fingerprint::new("test", "Test pattern").unwrap();
    let mut db = FingerprintDatabase::new();
    db.add_fingerprint(fp);
    let matcher = Matcher::new(db);

    let encoded = base64::engine::general_purpose::STANDARD.encode("test");
    let results = matcher.match_base64(&encoded).unwrap();
    assert_eq!(results.len(), 1);
    assert_eq!(results[0].fingerprint.description, "Test pattern");
}

#[test]
fn test_base64_invalid_input() {
    let matcher = Matcher::new(apache_db());
    let err = matcher.match_base64("!!!not base64!!!").unwrap_err();
    assert!(matches!(err, RecogError::Base64 { .. }));
}

#[test]
fn test_base64_invalid_utf8() {
    let matcher = Matcher::new(apache_db());
    let encoded = base64::engine::general_purpose::STANDARD.encode([0xffu8, 0xfe, 0xff]);
    let err = matcher.match_base64(&encoded).unwrap_err();
    assert!(matches!(err, RecogError::Utf8 { .. }));
}

#[test]
fn test_match_text_best_takes_first() {
    let mut db = FingerprintDatabase::new();
    db.add_fingerprint(Fingerprint::new("Apache", "first").unwrap());
    db.add_fingerprint(Fingerprint::new("Apache/2", "second").unwrap());
    let matcher = Matcher::new(db);

    let best = matcher.match_text_best("Apache/2.4").unwrap();
    assert_eq!(best.fingerprint.description, "first");
    assert!(matcher.match_text_best("lighttpd").is_none());
}

#[test]
fn test_match_batch_preserves_input_order() {
    let matcher = Matcher::new(apache_db());
    let texts = vec![
        "Apache/2.4".to_string(),
        "nginx/1.20.0".to_string(),
        "Apache/10.0".to_string(),
    ];
    let batches = matcher.match_batch(&texts);
    assert_eq!(batches.len(), 3);
    assert_eq!(batches[0].len(), 1);
    assert_eq!(batches[1].len(), 0);
    assert_eq!(batches[2].len(), 1);
    assert_eq!(batches[2][0].params.get("version"), Some(&"10.0".to_string()));
}

#[test]
fn test_matcher_filters_temporary_params() {
    let mut fp = Fingerprint::new(r"(Apache)/(\d+\.\d+)", "Apache HTTP Server").unwrap();
    fp.add_param(Param::new(1, "_tmp.product".to_string()));
    fp.add_param(Param::new(2, "version".to_string()));
    let mut db = FingerprintDatabase::new();
    db.add_fingerprint(fp);
    let matcher = Matcher::new(db);

    let results = matcher.match_text("Apache/2.4");
    assert_eq!(results.len(), 1);
    assert!(!results[0].params.contains_key("_tmp.product"));
    assert_eq!(results[0].params.get("version"), Some(&"2.4".to_string()));
}

#[test]
fn test_matcher_accessors() {
    let mut matcher = Matcher::new(apache_db());
    assert_eq!(matcher.database().fingerprints.len(), 1);
    matcher.interpolator_mut().add_temp_param("_tmp.x");
    let _interp = matcher.interpolator();
    let results = matcher.match_text("Apache/2.4");
    assert_eq!(results.len(), 1);
}

#[test]
fn test_match_result_score_is_full() {
    let matcher = Matcher::new(apache_db());
    let results = matcher.match_text("Apache/2.4");
    assert_eq!(results[0].score, 1000);
}

#[test]
fn test_find_matches_and_best_match() {
    let db = apache_db();
    let found = db.find_matches("Apache/2.4.41");
    assert_eq!(found.len(), 1);
    assert_eq!(found[0].0.description, "Apache HTTP Server");
    assert_eq!(found[0].1.get("version"), Some(&"2.4".to_string()));

    let best = db.find_best_match("Apache/2.4.41").unwrap();
    assert_eq!(best.0.description, "Apache HTTP Server");
    assert!(db.find_best_match("nothing here").is_none());
}

#[test]
fn test_invalid_pattern_is_rejected() {
    let err = Fingerprint::new("(unclosed", "bad").unwrap_err();
    assert!(matches!(err, RecogError::Regex { .. }));
}

#[test]
fn test_empty_pattern_matches_everything() {
    let mut db = FingerprintDatabase::new();
    db.add_fingerprint(Fingerprint::new("", "anything").unwrap());
    let matcher = Matcher::new(db);
    assert_eq!(matcher.match_text("whatever").len(), 1);
    assert_eq!(matcher.match_text("").len(), 1);
}
