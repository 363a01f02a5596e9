use recog::{Param, ParamInterpolator, ParamMap};

#[test]
fn test_param_creation() {
    let param = Param::new(1, "version".to_string());
    assert_eq!(param.pos, 1);
    assert_eq!(param.name, "version");
    assert!(param.value.is_none());

    let param_with_value = Param::with_value(2, "product".to_string(), "Apache".to_string());
    assert_eq!(param_with_value.pos, 2);
    assert_eq!(param_with_value.name, "product");
    assert_eq!(param_with_value.value, Some("Apache".to_string()));
}

#[test]
fn test_interpolation() {
    let interpolator = ParamInterpolator::new();
    let mut params = ParamMap::new();
    params.insert("version".to_string(), "2.4.41".to_string());
    params.insert("product".to_string(), "Apache".to_string());

    let template = "Server: {product}/{version}";
    let result = interpolator.interpolate(template, &params);
    assert_eq!(result, "Server: Apache/2.4.41");
}

#[test]
fn test_temp_params() {
    let mut interpolator = ParamInterpolator::new();
    interpolator.add_temp_param("_tmp.os");

    let mut params = ParamMap::new();
    params.insert("product".to_string(), "Apache".to_string());
    params.insert("_tmp.os".to_string(), "Linux".to_string());
    params.insert("_tmp.version".to_string(), "2.4".to_string());

    interpolator.filter_temp_params(&mut params);

    assert_eq!(params.len(), 1);
    assert_eq!(params.get("product"), Some(&"Apache".to_string()));
    assert!(!params.contains_key("_tmp.os"));
}

#[test]
fn test_interpolation_missing_param_becomes_empty() {
    let interpolator = ParamInterpolator::new();
    let mut params = ParamMap::new();
    params.insert("v".to_string(), "Apache".to_string());

    let result = interpolator.interpolate("cpe:/a:{v}:{p}", &params);
    assert_eq!(result, "cpe:/a:Apache:");
}

#[test]
fn test_interpolation_round_trip() {
    let interpolator = ParamInterpolator::new();
    let mut params = ParamMap::new();
    params.insert("v".to_string(), "Apache".to_string());
    params.insert("p".to_string(), "HTTP Server".to_string());

    let result = interpolator.interpolate("cpe:/a:{v}:{p}", &params);
    assert_eq!(result, "cpe:/a:Apache:HTTP Server");
}

#[test]
fn test_interpolation_literal_braces() {
    let interpolator = ParamInterpolator::new();
    let params = ParamMap::new();

    // An unclosed brace and an empty pair stay literal.
    assert_eq!(interpolator.interpolate("a{b", &params), "a{b");
    assert_eq!(interpolator.interpolate("x{}y", &params), "x{}y");
    // An unresolved placeholder degrades to empty output.
    assert_eq!(interpolator.interpolate("a{missing}b", &params), "ab");
}

#[test]
fn test_temp_params_prefix_without_registration() {
    // The prefix convention applies even for names never registered.
    let interpolator = ParamInterpolator::new();
    let mut params = ParamMap::new();
    params.insert("_tmp.anything".to_string(), "x".to_string());
    params.insert("kept".to_string(), "y".to_string());

    interpolator.filter_temp_params(&mut params);
    assert_eq!(params.len(), 1);
    assert_eq!(params.get("kept"), Some(&"y".to_string()));
}

#[test]
fn test_param_map_operations() {
    let mut params = ParamMap::new();
    assert!(params.is_empty());
    params.insert("a".to_string(), "1".to_string());
    params.insert("a".to_string(), "2".to_string());
    assert_eq!(params.len(), 1);
    assert_eq!(params.get("a"), Some(&"2".to_string()));
    assert!(params.contains_key("a"));
    assert!(params.remove("a"));
    assert!(!params.remove("a"));
    assert!(params.get("a").is_none());
}

#[test]
fn test_interpolation_empty_template() {
    let interpolator = ParamInterpolator::new();
    let params = ParamMap::new();
    assert_eq!(interpolator.interpolate("", &params), "");
}
