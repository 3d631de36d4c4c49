use grok_image::config::StyleConfig;
use grok_image::styles::{build_styles, builtin_style_list};

fn custom(name: &str, description: &str, template: &str) -> StyleConfig {
    StyleConfig {
        name: name.into(),
        description: description.into(),
        template: template.into(),
    }
}

#[test]
fn builtins_include_watercolor() {
    let styles = build_styles(&[]);
    assert!(styles.iter().any(|s| s.name == "watercolor"));
    assert_eq!(styles.len(), builtin_style_list().len());
}

#[test]
fn custom_style_appends() {
    let styles = build_styles(&[custom(
        "my-style",
        "Custom look",
        "{prompt}, in my custom style",
    )]);
    let found = styles.iter().find(|s| s.name == "my-style").unwrap();
    assert_eq!(found.template, "{prompt}, in my custom style");
}

#[test]
fn same_name_overrides_builtin() {
    let styles = build_styles(&[custom(
        "watercolor",
        "Loose watercolor",
        "{prompt}, as a loose watercolor",
    )]);
    let found = styles.iter().find(|s| s.name == "watercolor").unwrap();
    assert_eq!(found.description, "Loose watercolor");
    assert_eq!(found.template, "{prompt}, as a loose watercolor");
    assert_eq!(styles.iter().filter(|s| s.name == "watercolor").count(), 1);
}

#[test]
fn missing_prompt_placeholder_is_skipped() {
    let styles = build_styles(&[custom("bad", "No placeholder", "just a string")]);
    assert!(styles.iter().all(|s| s.name != "bad"));
}

#[test]
fn builtin_list_is_the_documented_one() {
    let names: Vec<String> = build_styles(&[]).into_iter().map(|s| s.name).collect();
    assert_eq!(
        names,
        vec![
            "watercolor", "oil-painting", "pencil-sketch", "pixel-art", "anime", "pop-art",
            "art-nouveau", "cinematic", "portrait", "macro", "aerial", "studio", "noir", "vintage"
        ]
    );
    let styles = build_styles(&[]);
    assert_eq!(styles[0].template, "{prompt}, as a watercolor painting");
    assert!(styles.iter().all(|s| s.template.contains("{prompt}")));
}

#[test]
fn overriding_keeps_position_and_later_custom_wins() {
    let styles = build_styles(&[
        custom("noir", "first", "{prompt} first"),
        custom("extra", "e", "{prompt} extra"),
        custom("noir", "second", "{prompt} second"),
        custom("noir", "ignored", "no placeholder here"),
    ]);
    assert_eq!(styles.len(), 15);
    assert_eq!(styles[12].name, "noir");
    assert_eq!(styles[12].description, "second");
    assert_eq!(styles[12].template, "{prompt} second");
    assert_eq!(styles[14].name, "extra");
    let mut names: Vec<&str> = styles.iter().map(|s| s.name.as_str()).collect();
    names.sort();
    names.dedup();
    assert_eq!(names.len(), styles.len());
}

#[test]
fn new_styles_follow_first_occurrence_order() {
    let styles = build_styles(&[
        custom("beta", "Skipped", "no placeholder"),
        custom("alpha", "First alpha", "{prompt}, alpha"),
        custom("beta", "Beta", "{prompt}, beta"),
        custom("alpha", "Second alpha", "{prompt}, alpha again"),
        custom("noir", "Darker noir", "{prompt}, darker"),
    ]);
    let n = builtin_style_list().len();
    assert_eq!(styles.len(), n + 2);
    assert_eq!(styles[n].name, "alpha");
    assert_eq!(styles[n].description, "Second alpha");
    assert_eq!(styles[n + 1].name, "beta");
    assert_eq!(styles[n + 1].template, "{prompt}, beta");
}
