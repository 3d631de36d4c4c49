use grok_image::grok::quality_supported;
use grok_image::params::{
    ensure_quality_supported, validate_aspect_ratio, validate_common_params,
    validate_image_params, validate_quality,
};

#[test]
fn n_bounds() {
    assert!(validate_common_params(Some(1), None, None).is_ok());
    assert!(validate_common_params(Some(10), None, None).is_ok());
    assert!(validate_common_params(Some(0), None, None).is_err());
    assert!(validate_common_params(Some(11), None, None).is_err());
}

#[test]
fn aspect_includes_ultrawide() {
    assert!(validate_aspect_ratio(Some("21:9")).is_ok());
    assert!(validate_aspect_ratio(Some("5:2")).is_ok());
    assert!(validate_aspect_ratio(Some("3:7")).is_err());
}

#[test]
fn quality_enum_and_model_gate() {
    assert!(validate_quality(Some("auto")).is_ok());
    assert!(validate_quality(Some("high")).is_err());
    assert!(ensure_quality_supported("grok-imagine-image-2.0", Some("low")).is_ok());
    assert!(ensure_quality_supported("grok-imagine-image", Some("low")).is_err());
    assert!(ensure_quality_supported("grok-imagine-image", None).is_ok());
}

#[test]
fn common_param_messages() {
    assert_eq!(
        validate_common_params(Some(0), None, None).unwrap_err(),
        "n must be between 1 and 10, got 0"
    );
    assert_eq!(
        validate_common_params(Some(200), None, None).unwrap_err(),
        "n must be between 1 and 10, got 200"
    );
    assert_eq!(
        validate_common_params(None, Some("png"), None).unwrap_err(),
        "response_format must be \"url\" or \"b64_json\", got \"png\""
    );
    assert_eq!(
        validate_common_params(None, None, Some("4k")).unwrap_err(),
        "resolution must be \"1k\" or \"2k\", got \"4k\""
    );
    assert!(validate_common_params(None, Some("b64_json"), Some("2k")).is_ok());
    assert!(validate_common_params(None, None, None).is_ok());
    // the count is checked first
    assert!(validate_common_params(Some(0), Some("png"), Some("4k"))
        .unwrap_err()
        .starts_with("n must"));
}

#[test]
fn aspect_and_quality_messages() {
    assert_eq!(
        validate_aspect_ratio(Some("3:7")).unwrap_err(),
        "Invalid aspect_ratio \"3:7\". Valid options: 1:1, 16:9, 9:16, 4:3, 3:4, 3:2, 2:3, 2:1, 1:2, 19.5:9, 9:19.5, 20:9, 9:20, 21:9, 5:2, auto"
    );
    for ar in [
        "1:1", "16:9", "9:16", "4:3", "3:4", "3:2", "2:3", "2:1", "1:2", "19.5:9", "9:19.5", "20:9",
        "9:20", "21:9", "5:2", "auto",
    ] {
        assert!(validate_aspect_ratio(Some(ar)).is_ok());
    }
    assert!(validate_aspect_ratio(None).is_ok());
    assert_eq!(
        validate_quality(Some("high")).unwrap_err(),
        "quality must be \"low\", \"medium\", or \"auto\", got \"high\""
    );
    assert!(validate_quality(Some("low")).is_ok());
    assert!(validate_quality(Some("medium")).is_ok());
    assert_eq!(
        ensure_quality_supported("grok-imagine-image", Some("low")).unwrap_err(),
        "quality is only supported on grok-imagine-image-2.0 (got \"grok-imagine-image\")"
    );
}

#[test]
fn image_params_checked_in_order() {
    assert!(validate_image_params(Some(2), Some("url"), Some("1k"), Some("16:9"), Some("low")).is_ok());
    assert!(validate_image_params(Some(2), None, None, Some("7:7"), Some("bad"))
        .unwrap_err()
        .starts_with("Invalid aspect_ratio"));
    assert!(validate_image_params(None, None, None, None, Some("bad"))
        .unwrap_err()
        .starts_with("quality must"));
}

#[test]
fn quality_support_by_model_name() {
    assert!(quality_supported("grok-imagine-image-2.0"));
    assert!(quality_supported("grok-imagine-image-2-0"));
    assert!(!quality_supported("grok-imagine-image"));
    assert!(!quality_supported("grok-imagine-image-quality"));
}
