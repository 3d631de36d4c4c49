use grok_image::config::{default_save_dir, select_config, Config};
use grok_image::grok::GrokImageData;
use grok_image::params::{EditImageParams, GenerateImageParams, HeadshotParams};
use grok_image::styles::build_styles;
use grok_image::tools::{
    format_response, format_response_with_output, generate_contents, headshot_request,
    headshot_summary, plan_edit_image, plan_generate_image, plan_headshot, save_file_name,
    styles_listing, ContentItem,
};

fn generate(prompt: &str) -> GenerateImageParams {
    GenerateImageParams {
        prompt: prompt.into(),
        n: None,
        response_format: None,
        aspect_ratio: None,
        resolution: None,
        quality: None,
        model: None,
        style: None,
    }
}

fn headshot_params(image: &str) -> HeadshotParams {
    HeadshotParams {
        image: image.into(),
        clothing: None,
        notes: None,
        pronoun: None,
        gravity: None,
        content_width: None,
        canvas_width: None,
        resolution: None,
        output_path: None,
        n: None,
        quality: None,
        model: None,
    }
}

fn no_files(path: &str) -> Result<Vec<u8>, String> {
    Err(format!("no file {path}"))
}

fn text(c: &ContentItem) -> &str {
    match c {
        ContentItem::Text(t) => t.as_str(),
        ContentItem::Image { .. } => panic!("expected text"),
    }
}

#[test]
fn style_wraps_prompt() {
    let styles = build_styles(&[]);
    let mut p = generate("a cat on a roof");
    p.style = Some("watercolor".into());
    let plan = plan_generate_image(p, &styles).unwrap();
    assert_eq!(plan.request.prompt, "a cat on a roof, as a watercolor painting");
    assert_eq!(plan.request.model, "grok-imagine-image-2.0");
    assert_eq!(plan.style_applied.as_deref(), Some("watercolor"));
}

#[test]
fn every_placeholder_is_replaced() {
    let styles = build_styles(&[grok_image::config::StyleConfig {
        name: "twice".into(),
        description: "d".into(),
        template: "{prompt} and again {prompt}!".into(),
    }]);
    let mut p = generate("x");
    p.style = Some("twice".into());
    let plan = plan_generate_image(p, &styles).unwrap();
    assert_eq!(plan.request.prompt, "x and again x!");
}

#[test]
fn generation_without_style_passes_through() {
    let styles = build_styles(&[]);
    let mut p = generate("a dog");
    p.n = Some(3);
    p.aspect_ratio = Some("16:9".into());
    p.model = Some("grok-imagine-image".into());
    let plan = plan_generate_image(p, &styles).unwrap();
    assert_eq!(plan.request.prompt, "a dog");
    assert_eq!(plan.request.n, Some(3));
    assert_eq!(plan.request.aspect_ratio.as_deref(), Some("16:9"));
    assert_eq!(plan.request.model, "grok-imagine-image");
    assert!(plan.style_applied.is_none());
}

#[test]
fn generation_errors() {
    let styles = build_styles(&[]);
    let mut p = generate("a");
    p.style = Some("nope".into());
    let err = plan_generate_image(p, &styles).err().unwrap();
    assert!(err.starts_with("Unknown style \"nope\". Available styles: watercolor, oil-painting, "));
    assert!(err.ends_with(", noir, vintage"));

    let mut p = generate("a");
    p.quality = Some("low".into());
    p.model = Some("grok-imagine-image".into());
    assert_eq!(
        plan_generate_image(p, &styles).err().unwrap(),
        "quality is only supported on grok-imagine-image-2.0 (got \"grok-imagine-image\")"
    );

    let mut p = generate("a");
    p.n = Some(0);
    p.style = Some("nope".into());
    assert_eq!(
        plan_generate_image(p, &styles).err().unwrap(),
        "n must be between 1 and 10, got 0"
    );
}

#[test]
fn edit_request_is_built() {
    let p = EditImageParams {
        image_url: Some("https://a/b.png".into()),
        images: None,
        prompt: "remove the background".into(),
        n: Some(2),
        response_format: Some("b64_json".into()),
        aspect_ratio: None,
        resolution: Some("2k".into()),
        quality: Some("medium".into()),
        model: None,
    };
    let req = plan_edit_image(p, &no_files).unwrap();
    assert_eq!(req.image.unwrap().url, "https://a/b.png");
    assert!(req.images.is_none());
    assert_eq!(req.model, "grok-imagine-image-2.0");
    assert_eq!(req.prompt, "remove the background");
    assert_eq!(req.quality.as_deref(), Some("medium"));

    let p = EditImageParams {
        image_url: None,
        images: Some(vec!["local.png".into()]),
        prompt: "x".into(),
        n: None,
        response_format: None,
        aspect_ratio: None,
        resolution: None,
        quality: None,
        model: None,
    };
    assert_eq!(plan_edit_image(p, &no_files).err().unwrap(), "no file local.png");
}

#[test]
fn headshot_defaults() {
    let plan = plan_headshot(headshot_params("/tmp/me.jpg")).unwrap();
    assert_eq!(plan.gravity, "North");
    assert_eq!(plan.content_width, 550);
    assert_eq!(plan.canvas_width, 780);
    assert_eq!(plan.resolution, "2k");
    assert_eq!(plan.model, "grok-imagine-image-2.0");
    assert_eq!(plan.quality.as_deref(), Some("medium"));
    assert!(plan.prompt.contains("completing their shoulders/body"));
    assert_eq!(plan.image, "/tmp/me.jpg");

    let summary = headshot_summary(&plan, 780, 1100);
    assert_eq!(
        summary,
        format!(
            "Headshot pipeline: white letterbox 550→780×1100 (gravity North) → expand-only (no cutout)\nPrompt: {}",
            plan.prompt
        )
    );

    let req = headshot_request(plan, "data:image/jpeg;base64,AQID".into());
    assert_eq!(req.image.unwrap().url, "data:image/jpeg;base64,AQID");
    assert_eq!(req.response_format.as_deref(), Some("b64_json"));
    assert_eq!(req.aspect_ratio.as_deref(), Some("3:2"));
    assert_eq!(req.resolution.as_deref(), Some("2k"));
    assert_eq!(req.quality.as_deref(), Some("medium"));
}

#[test]
fn headshot_parameter_errors() {
    let mut p = headshot_params("a.jpg");
    p.pronoun = Some("it".into());
    assert!(plan_headshot(p).err().unwrap().starts_with("pronoun must be"));

    let mut p = headshot_params("a.jpg");
    p.model = Some("grok-imagine-image-quality".into());
    p.quality = Some("low".into());
    assert!(plan_headshot(p).err().unwrap().starts_with("quality is only supported"));

    let mut p = headshot_params("a.jpg");
    p.gravity = Some("  west ".into());
    p.pronoun = Some("She".into());
    p.model = Some("grok-imagine-image-quality".into());
    let plan = plan_headshot(p).unwrap();
    assert_eq!(plan.gravity, "west");
    assert!(plan.quality.is_none());
    assert!(plan.prompt.contains("completing her shoulders"));

    let mut p = headshot_params("a.jpg");
    p.resolution = Some("8k".into());
    assert!(plan_headshot(p).err().unwrap().starts_with("resolution must be"));
}

fn b64_image(data: &str, revised: Option<&str>) -> GrokImageData {
    GrokImageData {
        url: None,
        b64_json: Some(data.into()),
        revised_prompt: revised.map(|s| s.into()),
    }
}

#[test]
fn response_for_single_b64_image() {
    let data = vec![b64_image("/9j/AAAA", Some("a better cat"))];
    let out = format_response_with_output(
        &data,
        &vec![Some("/tmp/grok-images/1_0.jpg".into())],
        &Some(Ok("/home/me/out.jpg".into())),
    );
    assert_eq!(out.len(), 2);
    match &out[0] {
        ContentItem::Image { data, mime_type } => {
            assert_eq!(data, "/9j/AAAA");
            assert_eq!(mime_type, "image/jpeg");
        }
        _ => panic!("expected image"),
    }
    assert_eq!(
        text(&out[1]),
        "Saved: /tmp/grok-images/1_0.jpg\nOutput: /home/me/out.jpg\nRevised prompt: a better cat"
    );
}

#[test]
fn response_for_several_images() {
    let data = vec![
        b64_image("iVBORxx", None),
        GrokImageData {
            url: Some("https://img/2.png".into()),
            b64_json: None,
            revised_prompt: None,
        },
    ];
    let out = format_response_with_output(
        &data,
        &vec![None, None],
        &Some(Err("Failed to decode base64: bad".into())),
    );
    assert_eq!(out.len(), 3);
    assert_eq!(text(&out[1]), "Image 1:\nFailed to write output_path: Failed to decode base64: bad");
    assert_eq!(text(&out[2]), "Image 2:\nURL: https://img/2.png");
}

#[test]
fn response_without_images() {
    let out = format_response(&vec![], &vec![]);
    assert_eq!(out.len(), 1);
    assert_eq!(text(&out[0]), "No image data returned by API.");
    let empty = vec![GrokImageData { url: None, b64_json: None, revised_prompt: None }];
    let out = format_response(&empty, &vec![None]);
    assert_eq!(text(&out[0]), "No image data returned by API.");
    // a lone base64 image that was not saved carries no text
    let out = format_response(&vec![b64_image("R0lGOD", None)], &vec![None]);
    assert_eq!(out.len(), 1);
}

#[test]
fn style_note_comes_first() {
    let images = vec![ContentItem::Text("URL: u".into())];
    let out = generate_contents(&Some("noir".into()), "p, noir", images);
    assert_eq!(out.len(), 2);
    assert_eq!(text(&out[0]), "Style applied: noir\nPrompt sent: p, noir");
    let out = generate_contents(&None, "p", vec![]);
    assert!(out.is_empty());
}

#[test]
fn style_listing_text() {
    let styles = build_styles(&[]);
    let listing = styles_listing(&styles);
    assert!(listing.starts_with(
        "- **watercolor**: Watercolor painting style\n  Template: `{prompt}, as a watercolor painting`\n\n- **oil-painting**: "
    ));
    assert_eq!(listing.matches("\n\n").count(), 13);
}

#[test]
fn saved_file_names() {
    assert_eq!(save_file_name("", 1700000000, 0, "png"), "1700000000_0.png");
    assert_eq!(save_file_name("headshot-padded_", 5, 12, "jpg"), "headshot-padded_5_12.jpg");
}

#[test]
fn config_sources() {
    assert_eq!(default_save_dir(), "/tmp/grok-images");
    let from_env = select_config("/h/.config/x/config.toml", None, Some("xai-1".into())).unwrap();
    assert_eq!(from_env.api_key, "xai-1");
    assert_eq!(from_env.save_dir, "/tmp/grok-images");
    assert!(from_env.styles.is_empty());

    let file = Config { api_key: "k".into(), save_dir: "/d".into(), styles: vec![] };
    let chosen = select_config("p", Some(Ok(file)), Some("env".into())).unwrap();
    assert_eq!(chosen.api_key, "k");
    assert_eq!(chosen.save_dir, "/d");

    let err = select_config("p.toml", Some(Err("bad key".into())), Some("env".into()))
        .err()
        .unwrap();
    assert_eq!(err, "Failed to parse p.toml: bad key");

    let err = select_config("/c.toml", None, None).err().unwrap();
    assert_eq!(
        err,
        "No config found. Either:\n1. Create /c.toml with:\n\napi_key = \"xai-...\"\nsave_dir = \"/tmp/grok-images\"  # optional\n\n2. Or set the XAI_API_KEY environment variable."
    );
}

#[test]
fn every_style_keeps_the_user_prompt() {
    let styles = build_styles(&[grok_image::config::StyleConfig {
        name: "noir".into(),
        description: "mine".into(),
        template: "moody: {prompt}".into(),
    }]);
    for s in &styles {
        let mut p = generate("a lighthouse at dusk");
        p.style = Some(s.name.clone());
        let plan = plan_generate_image(p, &styles).unwrap();
        assert!(plan.request.prompt.contains("a lighthouse at dusk"));
        assert!(!plan.request.prompt.contains("{prompt}"));
    }
}
