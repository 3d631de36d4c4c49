use grok_image::headshot::{
    build_headshot_prompt, check_pad_widths, check_source_dimensions, gravity_offset, normalize_pronoun,
    resolve_headshot_quality,
};

#[test]
fn prompt_is_expand_only_white_bg_no_cutout() {
    let p = build_headshot_prompt(Some("navy blazer"), Some("glasses"), "his");
    assert!(p.contains("Only expand"));
    assert!(p.contains("navy blazer"));
    assert!(p.contains("Do not reframe"));
    assert!(p.to_lowercase().contains("white background"));
    assert!(!p.to_lowercase().contains("transparent"));
    assert!(!p.to_lowercase().contains("cutout"));
    assert!(!p.to_lowercase().contains("face centered"));
}

#[test]
fn pronoun_normalization() {
    assert_eq!(normalize_pronoun(Some("He")).unwrap(), "his");
    assert_eq!(normalize_pronoun(None).unwrap(), "their");
    assert!(normalize_pronoun(Some("x")).is_err());
}

#[test]
fn quality_defaults_medium_on_2_0() {
    let q = resolve_headshot_quality("grok-imagine-image-2.0", None).unwrap();
    assert_eq!(q.as_deref(), Some("medium"));
    let q = resolve_headshot_quality("grok-imagine-image-quality", None).unwrap();
    assert_eq!(q, None);
    assert!(resolve_headshot_quality("grok-imagine-image-quality", Some("low".into())).is_err());
}

const INTRO: &str = "Only expand this photograph into the pure white padded areas if the subject is cut off. Do not reframe, re-pose, or re-shoot the subject. Keep every pixel of the existing person unchanged: exact face, head angle, pose, hair, expression, skin texture, clothing, logos/text on clothing, colors, and lighting.";

#[test]
fn prompt_exact_text() {
    let p = build_headshot_prompt(Some("  navy blazer "), Some("glasses"), "her");
    let expected = format!(
        "{INTRO} Must preserve exactly: glasses. Where blank white space begins at the edges and her body is cut off, fill that white only by completing her shoulders/body in navy blazer. If the subject is already fully visible, do not invent extra limbs or a second pair of shoulders. Put the whole scene on a clean solid pure white background (replace any non-white backdrop with white; keep the person unchanged). Do not change logos or branding on the clothing. Do not cut out hair or change the silhouette."
    );
    assert_eq!(p, expected);
}

#[test]
fn prompt_defaults_for_blank_inputs() {
    let p = build_headshot_prompt(Some("   "), Some(" \t"), "their");
    assert!(!p.contains("Must preserve"));
    assert!(p.contains("completing their shoulders/body in the same clothing as in the photo."));
    let q = build_headshot_prompt(None, None, "their");
    assert_eq!(p, q);
    assert!(q.starts_with(INTRO));
}

#[test]
fn pronoun_variants_and_message() {
    assert_eq!(normalize_pronoun(Some("  SHE ")).unwrap(), "her");
    assert_eq!(normalize_pronoun(Some("they")).unwrap(), "their");
    assert_eq!(normalize_pronoun(Some("Her")).unwrap(), "her");
    assert_eq!(
        normalize_pronoun(Some("x")).unwrap_err(),
        "pronoun must be \"his\", \"her\", or \"their\" (got \"x\")"
    );
}

#[test]
fn headshot_quality_keeps_given_value() {
    let q = resolve_headshot_quality("grok-imagine-image-2.0", Some("low".into())).unwrap();
    assert_eq!(q.as_deref(), Some("low"));
    assert_eq!(
        resolve_headshot_quality("grok-imagine-image", Some("low".into())).unwrap_err(),
        "quality is only supported on grok-imagine-image-2.0 (got \"grok-imagine-image\")"
    );
}

#[test]
fn pad_width_limits() {
    assert!(check_pad_widths(550, 780).is_ok());
    assert!(check_pad_widths(64, 64).is_ok());
    assert!(check_pad_widths(4096, 8192).is_ok());
    assert_eq!(
        check_pad_widths(63, 780).unwrap_err(),
        "content_width must be between 64 and 4096, got 63"
    );
    assert_eq!(
        check_pad_widths(550, 500).unwrap_err(),
        "canvas_width must be between content_width (550) and 8192, got 500"
    );
    assert!(check_pad_widths(550, 8193).is_err());
}

#[test]
fn gravity_positions() {
    // 550 wide content on a 780 wide canvas of the same height
    assert_eq!(gravity_offset("North", 780, 1100, 550, 1100).unwrap(), (115, 0));
    assert_eq!(gravity_offset("NorthWest", 400, 100, 200, 100).unwrap(), (0, 0));
    assert_eq!(gravity_offset("north_east", 400, 100, 200, 100).unwrap(), (200, 0));
    assert_eq!(gravity_offset("se", 400, 100, 200, 50).unwrap(), (200, 50));
    assert_eq!(gravity_offset("CENTRE", 401, 101, 200, 50).unwrap(), (100, 25));
    assert_eq!(gravity_offset("south-west", 400, 100, 200, 50).unwrap(), (0, 50));
    assert_eq!(gravity_offset("w", 400, 100, 500, 150).unwrap(), (0, 0));
    assert_eq!(
        gravity_offset("up", 400, 100, 200, 100).unwrap_err(),
        "Invalid gravity \"up\". Valid: North, NorthWest, NorthEast, Center, West, East, South, SouthWest, SouthEast"
    );
}

#[test]
fn normalized_pronoun_is_stable() {
    for raw in [" He ", "SHE", "they", "their", "Her"] {
        let once = normalize_pronoun(Some(raw)).unwrap();
        assert!(once == "his" || once == "her" || once == "their");
        assert_eq!(normalize_pronoun(Some(&once)).unwrap(), once);
    }
}

#[test]
fn letterbox_content_fits_canvas() {
    for g in ["North", "NorthWest", "NorthEast", "West", "East", "Center", "South", "SouthWest", "SouthEast"] {
        for (cw, canvas) in [(64u32, 64u32), (550, 780), (4096, 8192), (100, 101)] {
            assert!(check_pad_widths(cw, canvas).is_ok());
            let (x, y) = gravity_offset(g, canvas, 333, cw, 333).unwrap();
            assert!(x + cw <= canvas);
            assert_eq!(y, 0);
        }
    }
}

#[test]
fn zero_dimension_sources_are_refused() {
    assert!(check_source_dimensions(1, 1).is_ok());
    assert_eq!(check_source_dimensions(0, 10).unwrap_err(), "Source image has zero dimensions");
    assert_eq!(check_source_dimensions(10, 0).unwrap_err(), "Source image has zero dimensions");
}

#[test]
fn prompt_never_holds_cutout_words() {
    let p = build_headshot_prompt(Some("  Trans parent CUT OUT jacket "), Some("Face, centred"), "Their")
        .to_ascii_lowercase();
    assert!(p.contains("only expand"));
    assert!(p.contains("do not reframe"));
    assert!(p.contains("white background"));
    assert!(!p.contains("transparent"));
    assert!(!p.contains("cutout"));
    assert!(!p.contains("face centered"));
}
