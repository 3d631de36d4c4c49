//! The decisions of the MCP tools: checking parameters, building the API requests,
//! and assembling the answer shown to the client.
use crate::grok::{GrokEditRequest, GrokGenerateRequest, GrokImageData, GrokImageRef, DEFAULT_MODEL};
use crate::headshot::{
    build_headshot_prompt, headshot_prompt, headshot_quality, normalize_pronoun, pronoun_for,
    pronoun_key, pronoun_message, resolve_headshot_quality,
};
use crate::image_io::{
    b64_mime, detect_mime_type, edit_fields_result, reader_ok, resolve_edit_image_fields,
    EditFields,
};
use crate::params::{
    common_params_error, ensure_quality_supported, image_params_error, quality_error,
    quality_support_error, quoted, validate_common_params, validate_image_params,
    validate_quality, EditImageParams, GenerateImageParams, HeadshotParams,
};
use crate::styles::{
    find_style, law_templates_hold_placeholder, name_index, style_views, styles_after, Style,
    StyleView,
};
use crate::text::{
    concat, decimal, join, join_strings, opt_as_str, opt_string_view, owned,
    push_decimal, push_str, replace, replace_all, str_trim, trim, contains_sub,
    lemma_replacement_present, lemma_contains_in_part, occurs_at,
};
use vstd::prelude::*;

verus! {

broadcast use vstd::string::group_string_axioms;

/// One item of a tool answer: an image (base64 data and MIME type) or text.
pub enum ContentItem {
    Image { data: String, mime_type: String },
    Text(String),
}

/// An answer item as (is an image, data or text, MIME type; empty for text).
pub type ContentView = (bool, Seq<char>, Seq<char>);

impl View for ContentItem {
    type V = ContentView;

    open spec fn view(&self) -> ContentView {
        match self {
            ContentItem::Image { data, mime_type } => (true, data@, mime_type@),
            ContentItem::Text(t) => (false, t@, Seq::empty()),
        }
    }
}

/// The view of a text item.
pub open spec fn text_item(t: Seq<char>) -> ContentView {
    (false, t, Seq::empty())
}

/// The views of a list of answer items.
pub open spec fn content_views(v: Seq<ContentItem>) -> Seq<ContentView> {
    v.map_values(|c: ContentItem| c@)
}

/// `Image {i+1}:` when the answer has several images, else nothing.
pub open spec fn entry_label(i: int, total: int) -> Seq<char> {
    if total > 1 {
        "Image "@ + decimal((i + 1) as nat) + ":"@
    } else {
        Seq::empty()
    }
}

/// `[s]` when `s` is not empty, else `[]`.
pub open spec fn nonempty_part(s: Seq<char>) -> Seq<Seq<char>> {
    if s.len() > 0 {
        seq![s]
    } else {
        Seq::empty()
    }
}

/// `[prefix + s]` for `Some(s)`, else `[]`.
pub open spec fn optional_part(prefix: Seq<char>, s: Option<Seq<char>>) -> Seq<Seq<char>> {
    match s {
        Some(t) => seq![prefix + t],
        None => Seq::empty(),
    }
}

/// The line reporting the write to `output_path`.
pub open spec fn output_part(output: Option<Result<Seq<char>, Seq<char>>>) -> Seq<Seq<char>> {
    match output {
        Some(Ok(p)) => seq!["Output: "@ + p],
        Some(Err(e)) => seq!["Failed to write output_path: "@ + e],
        None => Seq::empty(),
    }
}

/// The answer items for the `i`-th of `total` images.
///
/// `saved` is where the image was saved, if it was; `output` is the outcome of
/// writing it to the requested output path, considered for the first image only.
pub open spec fn entry_contents(
    d: (Option<Seq<char>>, Option<Seq<char>>, Option<Seq<char>>),
    i: int,
    total: int,
    saved: Option<Seq<char>>,
    output: Option<Result<Seq<char>, Seq<char>>>,
) -> Seq<ContentView> {
    let label = entry_label(i, total);
    match d.1 {
        Some(b64) => {
            let parts = nonempty_part(label) + optional_part("Saved: "@, saved) + (if i == 0 {
                output_part(output)
            } else {
                Seq::empty()
            }) + optional_part("Revised prompt: "@, d.2);
            seq![(true, b64, b64_mime(b64))] + if parts.len() > 0 {
                seq![text_item(join(parts, "\n"@))]
            } else {
                Seq::empty()
            }
        },
        None => match d.0 {
            Some(url) => {
                let parts = nonempty_part(label) + seq!["URL: "@ + url] + optional_part(
                    "Revised prompt: "@,
                    d.2,
                );
                seq![text_item(join(parts, "\n"@))]
            },
            None => Seq::empty(),
        },
    }
}

/// The answer items for the first `n` images.
pub open spec fn entries_upto(
    data: Seq<(Option<Seq<char>>, Option<Seq<char>>, Option<Seq<char>>)>,
    saved: Seq<Option<Seq<char>>>,
    output: Option<Result<Seq<char>, Seq<char>>>,
    n: int,
) -> Seq<ContentView>
    decreases n,
{
    if n <= 0 {
        Seq::empty()
    } else {
        entries_upto(data, saved, output, n - 1) + entry_contents(
            data[n - 1],
            n - 1,
            data.len() as int,
            saved[n - 1],
            output,
        )
    }
}

/// The whole answer for the API images: their items, or a note that there were none.
pub open spec fn response_contents(
    data: Seq<(Option<Seq<char>>, Option<Seq<char>>, Option<Seq<char>>)>,
    saved: Seq<Option<Seq<char>>>,
    output: Option<Result<Seq<char>, Seq<char>>>,
) -> Seq<ContentView> {
    let all = entries_upto(data, saved, output, data.len() as int);
    if all.len() > 0 {
        all
    } else {
        seq![text_item("No image data returned by API."@)]
    }
}

/// The views of the API images.
pub open spec fn data_views(data: Seq<GrokImageData>) -> Seq<
    (Option<Seq<char>>, Option<Seq<char>>, Option<Seq<char>>),
> {
    data.map_values(|d: GrokImageData| d@)
}

/// The views of the saved paths.
pub open spec fn saved_views(saved: Seq<Option<String>>) -> Seq<Option<Seq<char>>> {
    saved.map_values(|s: Option<String>| opt_string_view(s))
}

/// The view of the outcome of writing the output path.
pub open spec fn output_view(output: Option<Result<String, String>>) -> Option<
    Result<Seq<char>, Seq<char>>,
> {
    match output {
        Some(Ok(p)) => Some(Ok(p@)),
        Some(Err(e)) => Some(Err(e@)),
        None => None,
    }
}

fn push_optional(parts: &mut Vec<String>, prefix: &str, s: &Option<String>)
    ensures
        final(parts)@.map_values(|x: String| x@) == old(parts)@.map_values(|x: String| x@)
            + optional_part(prefix@, opt_string_view(*s)),
{
    let ghost before = parts@.map_values(|x: String| x@);
    if let Some(t) = s {
        parts.push(concat(prefix, t.as_str()));
        assert(parts@.map_values(|x: String| x@) =~= before + optional_part(
            prefix@,
            opt_string_view(*s),
        ));
    } else {
        assert(parts@.map_values(|x: String| x@) =~= before + optional_part(
            prefix@,
            opt_string_view(*s),
        ));
    }
}

fn entry_label_exec(i: usize, total: usize) -> (r: String)
    requires
        i < total,
    ensures
        r@ == entry_label(i as int, total as int),
{
    if total > 1 {
        let mut l = owned("Image ");
        push_decimal(&mut l, (i as u64) + 1);
        push_str(&mut l, ":");
        l
    } else {
        String::new()
    }
}

fn append_entry(
    contents: &mut Vec<ContentItem>,
    img: &GrokImageData,
    i: usize,
    total: usize,
    saved: &Option<String>,
    output: &Option<Result<String, String>>,
)
    requires
        i < total,
    ensures
        content_views(final(contents)@) == content_views(old(contents)@) + entry_contents(
            img@,
            i as int,
            total as int,
            opt_string_view(*saved),
            output_view(*output),
        ),
{
    let ghost before = content_views(contents@);
    let label = entry_label_exec(i, total);
    if let Some(b64) = &img.b64_json {
        let mime = detect_mime_type(b64.as_str());
        contents.push(ContentItem::Image { data: b64.clone(), mime_type: owned(mime) });
        let mut parts: Vec<String> = Vec::new();
        if !label.as_str().is_empty() {
            parts.push(label);
        }
        assert(parts@.map_values(|x: String| x@) =~= nonempty_part(
            entry_label(i as int, total as int),
        ));
        push_optional(&mut parts, "Saved: ", saved);
        let ghost p1 = parts@.map_values(|x: String| x@);
        if i == 0 {
            match output {
                Some(Ok(p)) => {
                    parts.push(concat("Output: ", p.as_str()));
                },
                Some(Err(e)) => {
                    parts.push(concat("Failed to write output_path: ", e.as_str()));
                },
                None => {},
            }
            assert(parts@.map_values(|x: String| x@) =~= p1 + output_part(output_view(*output)));
        }
        push_optional(&mut parts, "Revised prompt: ", &img.revised_prompt);
        if parts.len() > 0 {
            contents.push(ContentItem::Text(join_strings(&parts, "\n")));
        }
        assert(content_views(contents@) =~= before + entry_contents(
            img@,
            i as int,
            total as int,
            opt_string_view(*saved),
            output_view(*output),
        ));
    } else if let Some(url) = &img.url {
        let mut parts: Vec<String> = Vec::new();
        if !label.as_str().is_empty() {
            parts.push(label);
        }
        assert(parts@.map_values(|x: String| x@) =~= nonempty_part(
            entry_label(i as int, total as int),
        ));
        let ghost p0 = parts@.map_values(|x: String| x@);
        parts.push(concat("URL: ", url.as_str()));
        assert(parts@.map_values(|x: String| x@) =~= p0 + seq!["URL: "@ + url@]);
        push_optional(&mut parts, "Revised prompt: ", &img.revised_prompt);
        contents.push(ContentItem::Text(join_strings(&parts, "\n")));
        assert(content_views(contents@) =~= before + entry_contents(
            img@,
            i as int,
            total as int,
            opt_string_view(*saved),
            output_view(*output),
        ));
    } else {
        assert(content_views(contents@) =~= before + entry_contents(
            img@,
            i as int,
            total as int,
            opt_string_view(*saved),
            output_view(*output),
        ));
    }
}

/// Assembles the answer for every image the API returned.
///
/// `saved[i]` is where image `i` was saved on disk, if it was (base64 images only);
/// `output` is the outcome of writing the first image to the requested output
/// path (the path written, or the error), when there was one to write.
pub fn format_response_with_output(
    data: &Vec<GrokImageData>,
    saved: &Vec<Option<String>>,
    output: &Option<Result<String, String>>,
) -> (r: Vec<ContentItem>)
    requires
        saved@.len() == data@.len(),
    ensures
        content_views(r@) == response_contents(
            data_views(data@),
            saved_views(saved@),
            output_view(*output),
        ),
{
    let ghost dv = data_views(data@);
    let ghost sv = saved_views(saved@);
    let mut contents: Vec<ContentItem> = Vec::new();
    let mut i: usize = 0;
    while i < data.len()
        invariant
            dv == data_views(data@),
            sv == saved_views(saved@),
            saved@.len() == data@.len(),
            i <= data.len(),
            content_views(contents@) == entries_upto(dv, sv, output_view(*output), i as int),
        decreases data.len() - i,
    {
        append_entry(&mut contents, &data[i], i, data.len(), &saved[i], output);
        i = i + 1;
    }
    if contents.len() == 0 {
        contents.push(ContentItem::Text(owned("No image data returned by API.")));
        assert(content_views(contents@) =~= seq![text_item("No image data returned by API."@)]);
    }
    contents
}

/// The answer for images without an output path.
pub fn format_response(data: &Vec<GrokImageData>, saved: &Vec<Option<String>>) -> (r: Vec<
    ContentItem,
>)
    requires
        saved@.len() == data@.len(),
    ensures
        content_views(r@) == response_contents(data_views(data@), saved_views(saved@), None),
{
    format_response_with_output(data, saved, &None)
}

/// A text holds itself.
proof fn lemma_contains_self(t: Seq<char>)
    ensures
        contains_sub(t, t),
{
    assert(occurs_at(t, t, 0)) by {
        assert(t.skip(0) =~= t);
    }
}

/// Every element of a list occurs in the list joined by `sep`.
proof fn lemma_join_contains_each(list: Seq<Seq<char>>, sep: Seq<char>, k: int)
    requires
        0 <= k < list.len(),
    ensures
        contains_sub(join(list, sep), list[k]),
    decreases list.len(),
{
    if list.len() == 1 {
        lemma_contains_self(list[0]);
    } else if k == list.len() - 1 {
        lemma_contains_self(list[k]);
        lemma_contains_in_part(join(list.drop_last(), sep) + sep, list.last(), list[k]);
    } else {
        lemma_join_contains_each(list.drop_last(), sep, k);
        lemma_contains_in_part(join(list.drop_last(), sep), sep, list[k]);
        lemma_contains_in_part(join(list.drop_last(), sep) + sep, list.last(), list[k]);
    }
}

/// The items of each image stand among the items for the first `n` images.
proof fn lemma_entries_include(
    data: Seq<(Option<Seq<char>>, Option<Seq<char>>, Option<Seq<char>>)>,
    saved: Seq<Option<Seq<char>>>,
    output: Option<Result<Seq<char>, Seq<char>>>,
    n: int,
    i: int,
    k: int,
)
    requires
        0 <= i < n,
        0 <= k < entry_contents(data[i], i, data.len() as int, saved[i], output).len(),
    ensures
        entries_upto(data, saved, output, n).contains(
            entry_contents(data[i], i, data.len() as int, saved[i], output)[k],
        ),
    decreases n,
{
    let before = entries_upto(data, saved, output, n - 1);
    let last = entry_contents(data[n - 1], n - 1, data.len() as int, saved[n - 1], output);
    if i == n - 1 {
        assert((before + last)[before.len() + k] == last[k]);
    } else {
        lemma_entries_include(data, saved, output, n - 1, i, k);
        let j = choose|j: int|
            0 <= j < before.len() && before[j] == entry_contents(
                data[i],
                i,
                data.len() as int,
                saved[i],
                output,
            )[k];
        assert((before + last)[j] == before[j]);
    }
}

/// The items of each image stand in the whole answer.
proof fn lemma_answer_includes(
    data: Seq<(Option<Seq<char>>, Option<Seq<char>>, Option<Seq<char>>)>,
    saved: Seq<Option<Seq<char>>>,
    output: Option<Result<Seq<char>, Seq<char>>>,
    i: int,
    k: int,
)
    requires
        0 <= i < data.len(),
        0 <= k < entry_contents(data[i], i, data.len() as int, saved[i], output).len(),
    ensures
        response_contents(data, saved, output).contains(
            entry_contents(data[i], i, data.len() as int, saved[i], output)[k],
        ),
{
    lemma_entries_include(data, saved, output, data.len() as int, i, k);
}

/// Law: in the answer, every API image is reported.  Base64 data comes back as an
/// image item holding that data; an image given by URL comes back as a text
/// holding "URL: " and the URL; and every image that carries a revised prompt,
/// whether it came as base64 or as a URL, comes back with a text holding
/// "Revised prompt: " and that prompt.
pub proof fn law_answer_reports_each_image(
    data: Seq<(Option<Seq<char>>, Option<Seq<char>>, Option<Seq<char>>)>,
    saved: Seq<Option<Seq<char>>>,
    output: Option<Result<Seq<char>, Seq<char>>>,
    i: int,
)
    requires
        0 <= i < data.len(),
        saved.len() == data.len(),
    ensures
        data[i].1 matches Some(b64) ==> exists|m: Seq<char>|
            #[trigger] response_contents(data, saved, output).contains((true, b64, m)),
        data[i].1 is None ==> (data[i].0 matches Some(url) ==> exists|t: Seq<char>|
            #[trigger] response_contents(data, saved, output).contains(text_item(t))
                && contains_sub(t, "URL: "@ + url)),
        data[i].1 is Some || data[i].0 is Some ==> (data[i].2 matches Some(rp) ==> exists|
            t: Seq<char>,
        |
            #[trigger] response_contents(data, saved, output).contains(text_item(t))
                && contains_sub(t, "Revised prompt: "@ + rp)),
{
    let total = data.len() as int;
    let d = data[i];
    let e = entry_contents(d, i, total, saved[i], output);
    let label = entry_label(i, total);
    match d.1 {
        Some(b64) => {
            lemma_answer_includes(data, saved, output, i, 0);
            assert(response_contents(data, saved, output).contains((true, b64, b64_mime(b64))));
            if d.2 is Some {
                let rp = d.2->0;
                let parts = nonempty_part(label) + optional_part("Saved: "@, saved[i]) + (if i == 0 {
                    output_part(output)
                } else {
                    Seq::empty()
                }) + optional_part("Revised prompt: "@, d.2);
                assert(parts[parts.len() - 1] == "Revised prompt: "@ + rp);
                lemma_join_contains_each(parts, "\n"@, parts.len() - 1);
                lemma_answer_includes(data, saved, output, i, 1);
                assert(e[1] == text_item(join(parts, "\n"@)));
            }
        },
        None => {
            if d.0 is Some {
                let url = d.0->0;
                let parts = nonempty_part(label) + seq!["URL: "@ + url] + optional_part(
                    "Revised prompt: "@,
                    d.2,
                );
                lemma_answer_includes(data, saved, output, i, 0);
                assert(e[0] == text_item(join(parts, "\n"@)));
                let u = nonempty_part(label).len() as int;
                assert(parts[u] == "URL: "@ + url);
                lemma_join_contains_each(parts, "\n"@, u);
                if d.2 is Some {
                    let rp = d.2->0;
                    assert(parts[parts.len() - 1] == "Revised prompt: "@ + rp);
                    lemma_join_contains_each(parts, "\n"@, parts.len() - 1);
                }
            }
        },
    }
}

// ---------------------------------------------------------------------------
// Requests
// ---------------------------------------------------------------------------

/// The model a request uses: the one given, else the default.
pub open spec fn model_choice(model: Option<Seq<char>>) -> Seq<char> {
    match model {
        Some(m) => m,
        None => DEFAULT_MODEL@,
    }
}

fn model_or_default(model: Option<String>) -> (r: String)
    ensures
        r@ == model_choice(opt_string_view(model)),
{
    match model {
        Some(m) => m,
        None => owned(DEFAULT_MODEL),
    }
}

/// A checked generation request, and the style applied to its prompt, if any.
pub struct GeneratePlan {
    pub request: GrokGenerateRequest,
    pub style_applied: Option<String>,
}

/// The message for an unknown style, listing the names available.
pub open spec fn unknown_style_message(name: Seq<char>, styles: Seq<StyleView>) -> Seq<char> {
    "Unknown style "@ + quoted(name) + ". Available styles: "@ + join(
        styles.map_values(|s: StyleView| s.0),
        ", "@,
    )
}

/// `req` carries the parameters as given, the chosen model, and `prompt`.
pub open spec fn generate_request_is(
    req: GrokGenerateRequest,
    params: GenerateImageParams,
    prompt: Seq<char>,
) -> bool {
    &&& req.model@ == model_choice(opt_string_view(params.model))
    &&& req.prompt@ == prompt
    &&& req.n == params.n
    &&& req.response_format == params.response_format
    &&& req.aspect_ratio == params.aspect_ratio
    &&& req.resolution == params.resolution
    &&& req.quality == params.quality
}

/// The first error of the checks shared by generation and editing.
pub open spec fn shared_checks_error(
    n: Option<u8>,
    response_format: Option<String>,
    resolution: Option<String>,
    aspect_ratio: Option<String>,
    quality: Option<String>,
) -> Option<Seq<char>> {
    image_params_error(
        n,
        opt_string_view(response_format),
        opt_string_view(resolution),
        opt_string_view(aspect_ratio),
        opt_string_view(quality),
    )
}

fn style_names(styles: &Vec<Style>) -> (r: String)
    ensures
        r@ == join(style_views(styles@).map_values(|s: StyleView| s.0), ", "@),
{
    let mut names: Vec<String> = Vec::new();
    let mut i: usize = 0;
    while i < styles.len()
        invariant
            i <= styles.len(),
            names@.map_values(|x: String| x@) =~= style_views(styles@).take(i as int).map_values(
                |s: StyleView| s.0,
            ),
        decreases styles.len() - i,
    {
        let ghost before = names@.map_values(|x: String| x@);
        names.push(styles[i].name.clone());
        assert(names@.map_values(|x: String| x@) =~= before.push(styles@[i as int].name@));
        assert(style_views(styles@).take(i + 1) =~= style_views(styles@).take(i as int).push(
            styles@[i as int]@,
        ));
        i = i + 1;
    }
    assert(style_views(styles@).take(styles.len() as int) =~= style_views(styles@));
    join_strings(&names, ", ")
}

/// Checks the parameters of `generate_image` and builds its request: the prompt is
/// wrapped in the named style's template (`{prompt}` replaced by it), and the model
/// defaults to `grok-imagine-image-2.0`.
pub fn plan_generate_image(params: GenerateImageParams, styles: &Vec<Style>) -> (r: Result<
    GeneratePlan,
    String,
>)
    ensures
        match shared_checks_error(
            params.n,
            params.response_format,
            params.resolution,
            params.aspect_ratio,
            params.quality,
        ) {
            Some(m) => r matches Err(e) && e@ == m,
            None => match quality_support_error(
                model_choice(opt_string_view(params.model)),
                opt_string_view(params.quality),
            ) {
                Some(m) => r matches Err(e) && e@ == m,
                None => match params.style {
                    None => r matches Ok(plan) && plan.style_applied is None && generate_request_is(
                        plan.request,
                        params,
                        params.prompt@,
                    ),
                    Some(name) => match name_index(style_views(styles@), name@) {
                        None => r matches Err(e) && e@ == unknown_style_message(
                            name@,
                            style_views(styles@),
                        ),
                        Some(i) => r matches Ok(plan) && plan.style_applied == Some(name)
                            && generate_request_is(
                            plan.request,
                            params,
                            replace_all(styles@[i].template@, "{prompt}"@, params.prompt@),
                        ),
                    },
                },
            },
        },
        r matches Ok(plan) ==> {
            &&& plan.request.n == params.n
            &&& plan.request.response_format == params.response_format
            &&& plan.request.aspect_ratio == params.aspect_ratio
            &&& plan.request.resolution == params.resolution
            &&& plan.request.quality == params.quality
            &&& params.model matches Some(m) ==> plan.request.model@ == m@
            &&& params.model is None ==> plan.request.model@ == DEFAULT_MODEL@
            &&& params.style is None ==> plan.request.prompt == params.prompt
        },
{
    validate_image_params(
        params.n,
        opt_as_str(&params.response_format),
        opt_as_str(&params.resolution),
        opt_as_str(&params.aspect_ratio),
        opt_as_str(&params.quality),
    )?;
    let model = model_or_default(params.model);
    ensure_quality_supported(model.as_str(), opt_as_str(&params.quality))?;
    let (prompt, style_applied) = match params.style {
        Some(style_name) => match find_style(styles, style_name.as_str()) {
            Some(i) => {
                proof {
                    reveal_strlit("{prompt}");
                }
                let styled = replace(styles[i].template.as_str(), "{prompt}", params.prompt.as_str());
                (styled, Some(style_name))
            },
            None => {
                let mut m = owned("Unknown style \"");
                push_str(&mut m, style_name.as_str());
                push_str(&mut m, "\". Available styles: ");
                let names = style_names(styles);
                push_str(&mut m, names.as_str());
                proof {
                    reveal_strlit("\"");
                    reveal_strlit("Unknown style \"");
                    reveal_strlit("Unknown style ");
                    reveal_strlit("\". Available styles: ");
                    reveal_strlit(". Available styles: ");
                }
                assert(m@ =~= unknown_style_message(style_name@, style_views(styles@)));
                return Err(m);
            },
        },
        None => (params.prompt, None),
    };
    let request = GrokGenerateRequest {
        model,
        prompt,
        n: params.n,
        response_format: params.response_format,
        aspect_ratio: params.aspect_ratio,
        resolution: params.resolution,
        quality: params.quality,
    };
    Ok(GeneratePlan { request, style_applied })
}

/// Law: whichever style of the list is chosen, the prompt sent carries the
/// user's prompt, since every template of the list holds the placeholder.
pub proof fn law_styled_prompt_holds_prompt(custom: Seq<StyleView>, i: int, prompt: Seq<char>)
    requires
        0 <= i < styles_after(custom).len(),
    ensures
        contains_sub(replace_all(styles_after(custom)[i].2, "{prompt}"@, prompt), prompt),
{
    law_templates_hold_placeholder(custom, i);
    reveal_strlit("{prompt}");
    lemma_replacement_present(styles_after(custom)[i].2, "{prompt}"@, prompt);
}

/// `req` carries the edit parameters as given, the chosen model and the resolved
/// image fields.
pub open spec fn edit_request_is(req: GrokEditRequest, params: EditImageParams, fields: EditFields) -> bool {
    &&& req.model@ == model_choice(opt_string_view(params.model))
    &&& req.prompt == params.prompt
    &&& req.image == fields.0
    &&& req.images == fields.1
    &&& req.n == params.n
    &&& req.response_format == params.response_format
    &&& req.aspect_ratio == params.aspect_ratio
    &&& req.resolution == params.resolution
    &&& req.quality == params.quality
}

/// Checks the parameters of `edit_image` and builds its request; local source
/// files are read with `read_file`.
pub fn plan_edit_image<F: Fn(&str) -> Result<Vec<u8>, String>>(
    params: EditImageParams,
    read_file: &F,
) -> (r: Result<GrokEditRequest, String>)
    requires
        reader_ok(*read_file),
    ensures
        match shared_checks_error(
            params.n,
            params.response_format,
            params.resolution,
            params.aspect_ratio,
            params.quality,
        ) {
            Some(m) => r matches Err(e) && e@ == m,
            None => exists|fields: Result<EditFields, String>|
                #[trigger] edit_fields_result(*read_file, params.image_url, params.images, fields)
                    && match fields {
                    Err(e) => r == Err::<GrokEditRequest, String>(e),
                    Ok(f) => match quality_support_error(
                        model_choice(opt_string_view(params.model)),
                        opt_string_view(params.quality),
                    ) {
                        Some(m) => r matches Err(e) && e@ == m,
                        None => r matches Ok(req) && edit_request_is(req, params, f),
                    },
                },
        },
        r matches Ok(req) ==> {
            &&& req.prompt == params.prompt
            &&& req.n == params.n
            &&& req.response_format == params.response_format
            &&& req.aspect_ratio == params.aspect_ratio
            &&& req.resolution == params.resolution
            &&& req.quality == params.quality
            &&& params.model matches Some(m) ==> req.model@ == m@
            &&& params.model is None ==> req.model@ == DEFAULT_MODEL@
        },
{
    let ghost old_params = params;
    validate_image_params(
        params.n,
        opt_as_str(&params.response_format),
        opt_as_str(&params.resolution),
        opt_as_str(&params.aspect_ratio),
        opt_as_str(&params.quality),
    )?;
    let fields = resolve_edit_image_fields(params.image_url, params.images, read_file);
    let ghost gf = fields;
    assert(edit_fields_result(*read_file, old_params.image_url, old_params.images, gf));
    let (image, images) = match fields {
        Ok(f) => f,
        Err(e) => {
            return Err(e);
        },
    };
    let model = model_or_default(params.model);
    ensure_quality_supported(model.as_str(), opt_as_str(&params.quality))?;
    Ok(
        GrokEditRequest {
            model,
            prompt: params.prompt,
            image,
            images,
            n: params.n,
            response_format: params.response_format,
            aspect_ratio: params.aspect_ratio,
            resolution: params.resolution,
            quality: params.quality,
        },
    )
}

/// Law: a generation request sends the caller's count, format, aspect ratio,
/// resolution and quality unchanged, each under its own name, with the prompt
/// it was built for.
pub proof fn law_generate_request_sends_parameters(
    req: GrokGenerateRequest,
    params: GenerateImageParams,
    prompt: Seq<char>,
)
    requires
        generate_request_is(req, params, prompt),
    ensures
        req.prompt@ == prompt,
        req.n == params.n,
        req.response_format == params.response_format,
        req.aspect_ratio == params.aspect_ratio,
        req.resolution == params.resolution,
        req.quality == params.quality,
{
}

/// Law: an edit request sends the caller's prompt, count, format, aspect ratio,
/// resolution and quality unchanged, each under its own name, with the image
/// sources it was built from.
pub proof fn law_edit_request_sends_parameters(
    req: GrokEditRequest,
    params: EditImageParams,
    fields: EditFields,
)
    requires
        edit_request_is(req, params, fields),
    ensures
        req.prompt == params.prompt,
        req.image == fields.0,
        req.images == fields.1,
        req.n == params.n,
        req.response_format == params.response_format,
        req.aspect_ratio == params.aspect_ratio,
        req.resolution == params.resolution,
        req.quality == params.quality,
{
}

// ---------------------------------------------------------------------------
// Headshot
// ---------------------------------------------------------------------------

/// A checked headshot request, with every default filled in.
pub struct HeadshotPlan {
    /// The source portrait (path, URL or data URI).
    pub image: String,
    /// Where to write the first result, if anywhere.
    pub output_path: Option<String>,
    pub gravity: String,
    pub content_width: u32,
    pub canvas_width: u32,
    pub resolution: String,
    pub model: String,
    pub quality: Option<String>,
    pub prompt: String,
    pub n: Option<u8>,
}

/// The letterbox gravity: the trimmed one given, or `North` when none or blank.
pub open spec fn gravity_choice(g: Option<Seq<char>>) -> Seq<char> {
    match g {
        Some(s) => if trim(s).len() > 0 {
            trim(s)
        } else {
            "North"@
        },
        None => "North"@,
    }
}

/// The value given, or the default.
pub open spec fn or_default<T>(v: Option<T>, d: T) -> T {
    match v {
        Some(x) => x,
        None => d,
    }
}

/// `plan` carries the parameters with their defaults, the pronoun `p` and `quality`.
pub open spec fn headshot_plan_is(
    plan: HeadshotPlan,
    params: HeadshotParams,
    p: Seq<char>,
    quality: Option<Seq<char>>,
) -> bool {
    &&& plan.image == params.image
    &&& plan.output_path == params.output_path
    &&& plan.gravity@ == gravity_choice(opt_string_view(params.gravity))
    &&& plan.content_width == or_default(params.content_width, 550u32)
    &&& plan.canvas_width == or_default(params.canvas_width, 780u32)
    &&& plan.resolution@ == or_default(opt_string_view(params.resolution), "2k"@)
    &&& plan.model@ == model_choice(opt_string_view(params.model))
    &&& opt_string_view(plan.quality) == quality
    &&& plan.prompt@ == headshot_prompt(
        opt_string_view(params.clothing),
        opt_string_view(params.notes),
        p,
    )
    &&& plan.n == params.n
}

/// Law: a headshot plan keeps the source, output path and count as given, and
/// takes each setting as given or, when it is not, its default: gravity `North`,
/// resize width 550, canvas width 780, resolution `2k`, model
/// `grok-imagine-image-2.0`.
pub proof fn law_headshot_plan_defaults(
    plan: HeadshotPlan,
    params: HeadshotParams,
    p: Seq<char>,
    q: Option<Seq<char>>,
)
    requires
        headshot_plan_is(plan, params, p, q),
    ensures
        plan.image == params.image,
        plan.output_path == params.output_path,
        plan.n == params.n,
        params.content_width matches Some(w) ==> plan.content_width == w,
        params.content_width is None ==> plan.content_width == 550,
        params.canvas_width matches Some(w) ==> plan.canvas_width == w,
        params.canvas_width is None ==> plan.canvas_width == 780,
        params.resolution matches Some(res) ==> plan.resolution@ == res@,
        params.resolution is None ==> plan.resolution@ == "2k"@,
        params.gravity is None ==> plan.gravity@ == "North"@,
        params.model matches Some(m) ==> plan.model@ == m@,
        params.model is None ==> plan.model@ == "grok-imagine-image-2.0"@,
{
    reveal_strlit("grok-imagine-image-2.0");
}

/// Checks the parameters of `headshot` and fills in its defaults: gravity `North`,
/// resize width 550, canvas width 780, resolution `2k`, model
/// `grok-imagine-image-2.0` at quality `medium`, pronoun `their`.
pub fn plan_headshot(params: HeadshotParams) -> (r: Result<HeadshotPlan, String>)
    ensures
        match common_params_error(params.n, Some("b64_json"@), opt_string_view(params.resolution)) {
            Some(m) => r matches Err(e) && e@ == m,
            None => match quality_error(opt_string_view(params.quality)) {
                Some(m) => r matches Err(e) && e@ == m,
                None => match pronoun_for(pronoun_key(opt_string_view(params.pronoun))) {
                    None => r matches Err(e) && e@ == pronoun_message(
                        opt_string_view(params.pronoun),
                    ),
                    Some(p) => match headshot_quality(
                        model_choice(opt_string_view(params.model)),
                        opt_string_view(params.quality),
                    ) {
                        Err(m) => r matches Err(e) && e@ == m,
                        Ok(q) => r matches Ok(plan) && headshot_plan_is(plan, params, p, q),
                    },
                },
            },
        },
{
    validate_common_params(params.n, Some("b64_json"), opt_as_str(&params.resolution))?;
    validate_quality(opt_as_str(&params.quality))?;
    let pronoun = normalize_pronoun(opt_as_str(&params.pronoun))?;
    let gravity = match &params.gravity {
        Some(g) => {
            let t = str_trim(g.as_str());
            if t.as_str().is_empty() {
                owned("North")
            } else {
                t
            }
        },
        None => owned("North"),
    };
    let content_width: u32 = match params.content_width {
        Some(w) => w,
        None => 550,
    };
    let canvas_width: u32 = match params.canvas_width {
        Some(w) => w,
        None => 780,
    };
    let resolution = match params.resolution {
        Some(res) => res,
        None => owned("2k"),
    };
    let model = model_or_default(params.model);
    let quality = resolve_headshot_quality(model.as_str(), params.quality)?;
    let prompt = build_headshot_prompt(
        opt_as_str(&params.clothing),
        opt_as_str(&params.notes),
        pronoun.as_str(),
    );
    Ok(
        HeadshotPlan {
            image: params.image,
            output_path: params.output_path,
            gravity,
            content_width,
            canvas_width,
            resolution,
            model,
            quality,
            prompt,
            n: params.n,
        },
    )
}

/// The edit request for a headshot: the padded image as a data URI, base64
/// output, aspect ratio 3:2.
pub fn headshot_request(plan: HeadshotPlan, data_uri: String) -> (req: GrokEditRequest)
    ensures
        req.model == plan.model,
        req.prompt == plan.prompt,
        req.image == Some(GrokImageRef { url: data_uri }),
        req.images is None,
        req.n == plan.n,
        req.response_format matches Some(f) && f@ == "b64_json"@,
        req.aspect_ratio matches Some(a) && a@ == "3:2"@,
        req.resolution == Some(plan.resolution),
        req.quality == plan.quality,
{
    GrokEditRequest {
        model: plan.model,
        prompt: plan.prompt,
        image: Some(GrokImageRef { url: data_uri }),
        images: None,
        n: plan.n,
        response_format: Some(owned("b64_json")),
        aspect_ratio: Some(owned("3:2")),
        resolution: Some(plan.resolution),
        quality: plan.quality,
    }
}

/// The first line of a headshot answer: what the pipeline did and the prompt.
pub open spec fn headshot_summary_text(
    content_width: u32,
    width: u32,
    height: u32,
    gravity: Seq<char>,
    prompt: Seq<char>,
) -> Seq<char> {
    "Headshot pipeline: white letterbox "@ + decimal(content_width as nat) + "→"@ + decimal(
        width as nat,
    ) + "×"@ + decimal(height as nat) + " (gravity "@ + gravity
        + ") → expand-only (no cutout)\nPrompt: "@ + prompt
}

/// Describes the headshot pipeline run for a padded image of `width`×`height`.
pub fn headshot_summary(plan: &HeadshotPlan, width: u32, height: u32) -> (r: String)
    ensures
        r@ == headshot_summary_text(plan.content_width, width, height, plan.gravity@, plan.prompt@),
{
    let mut r = owned("Headshot pipeline: white letterbox ");
    push_decimal(&mut r, plan.content_width as u64);
    push_str(&mut r, "→");
    push_decimal(&mut r, width as u64);
    push_str(&mut r, "×");
    push_decimal(&mut r, height as u64);
    push_str(&mut r, " (gravity ");
    push_str(&mut r, plan.gravity.as_str());
    push_str(&mut r, ") → expand-only (no cutout)\nPrompt: ");
    push_str(&mut r, plan.prompt.as_str());
    r
}

// ---------------------------------------------------------------------------
// Other answers
// ---------------------------------------------------------------------------

/// The answer of `generate_image`: a note of the style and the prompt sent when a
/// style was applied, then the image items.
pub fn generate_contents(style_applied: &Option<String>, prompt: &str, images: Vec<ContentItem>) -> (r:
    Vec<ContentItem>)
    ensures
        content_views(r@) == match style_applied {
            Some(name) => seq![
                text_item("Style applied: "@ + name@ + "\nPrompt sent: "@ + prompt@),
            ] + content_views(images@),
            None => content_views(images@),
        },
{
    match style_applied {
        Some(name) => {
            let mut t = concat("Style applied: ", name.as_str());
            push_str(&mut t, "\nPrompt sent: ");
            push_str(&mut t, prompt);
            let mut r: Vec<ContentItem> = Vec::new();
            r.push(ContentItem::Text(t));
            let ghost items = images@;
            let mut images = images;
            r.append(&mut images);
            assert(content_views(r@) =~= seq![
                text_item("Style applied: "@ + name@ + "\nPrompt sent: "@ + prompt@),
            ] + content_views(items));
            r
        },
        None => images,
    }
}

/// One entry of the style list.
pub open spec fn style_line(s: StyleView) -> Seq<char> {
    "- **"@ + s.0 + "**: "@ + s.1 + "\n  Template: `"@ + s.2 + "`"@
}

/// The text of `list_styles`: one entry per style, separated by blank lines.
pub fn styles_listing(styles: &Vec<Style>) -> (r: String)
    ensures
        r@ == join(style_views(styles@).map_values(|s: StyleView| style_line(s)), "\n\n"@),
{
    let mut lines: Vec<String> = Vec::new();
    let mut i: usize = 0;
    while i < styles.len()
        invariant
            i <= styles.len(),
            lines@.map_values(|x: String| x@) =~= style_views(styles@).take(i as int).map_values(
                |s: StyleView| style_line(s),
            ),
        decreases styles.len() - i,
    {
        let s = &styles[i];
        let mut line = concat("- **", s.name.as_str());
        push_str(&mut line, "**: ");
        push_str(&mut line, s.description.as_str());
        push_str(&mut line, "\n  Template: `");
        push_str(&mut line, s.template.as_str());
        push_str(&mut line, "`");
        let ghost before = lines@.map_values(|x: String| x@);
        lines.push(line);
        assert(lines@.map_values(|x: String| x@) =~= before.push(style_line(styles@[i as int]@)));
        assert(style_views(styles@).take(i + 1) =~= style_views(styles@).take(i as int).push(
            styles@[i as int]@,
        ));
        i = i + 1;
    }
    assert(style_views(styles@).take(styles.len() as int) =~= style_views(styles@));
    join_strings(&lines, "\n\n")
}

/// `{stem}{ts}_{seq}.{ext}`, the name of a saved file.
pub open spec fn save_name(stem: Seq<char>, ts: u64, seq: u64, ext: Seq<char>) -> Seq<char> {
    stem + decimal(ts as nat) + "_"@ + decimal(seq as nat) + "."@ + ext
}

/// The file name for a saved image, from a stem, a timestamp in seconds, a
/// sequence number and an extension.
pub fn save_file_name(stem: &str, ts: u64, seq: u64, ext: &str) -> (r: String)
    ensures
        r@ == save_name(stem@, ts, seq, ext@),
{
    let mut r = owned(stem);
    push_decimal(&mut r, ts);
    push_str(&mut r, "_");
    push_decimal(&mut r, seq);
    push_str(&mut r, ".");
    push_str(&mut r, ext);
    r
}

} // verus!
