//! Tool parameters and their validation.
use crate::grok::{quality_supported, supports_quality};
use crate::text::{concat, decimal, opt_view, owned, push_decimal, push_str, str_eq};
use vstd::prelude::*;

verus! {

/// Parameters of `generate_image`.
#[derive(Debug)]
pub struct GenerateImageParams {
    pub prompt: String,
    pub n: Option<u8>,
    pub response_format: Option<String>,
    pub aspect_ratio: Option<String>,
    pub resolution: Option<String>,
    pub quality: Option<String>,
    pub model: Option<String>,
    pub style: Option<String>,
}

/// Parameters of `edit_image`.
#[derive(Debug)]
pub struct EditImageParams {
    pub image_url: Option<String>,
    pub images: Option<Vec<String>>,
    pub prompt: String,
    pub n: Option<u8>,
    pub response_format: Option<String>,
    pub aspect_ratio: Option<String>,
    pub resolution: Option<String>,
    pub quality: Option<String>,
    pub model: Option<String>,
}

/// Parameters of `headshot`.
#[derive(Debug)]
pub struct HeadshotParams {
    pub image: String,
    pub clothing: Option<String>,
    pub notes: Option<String>,
    pub pronoun: Option<String>,
    pub gravity: Option<String>,
    pub content_width: Option<u32>,
    pub canvas_width: Option<u32>,
    pub resolution: Option<String>,
    pub output_path: Option<String>,
    pub n: Option<u8>,
    pub quality: Option<String>,
    pub model: Option<String>,
}

/// `"` around `s`.
pub open spec fn quoted(s: Seq<char>) -> Seq<char> {
    "\""@ + s + "\""@
}

/// The message for the first of `n`, `response_format`, `resolution` that is out of
/// range, or `None` when all three are acceptable.
pub open spec fn common_params_error(
    n: Option<u8>,
    response_format: Option<Seq<char>>,
    resolution: Option<Seq<char>>,
) -> Option<Seq<char>> {
    if n is Some && (n->0 < 1 || n->0 > 10) {
        Some("n must be between 1 and 10, got "@ + decimal(n->0 as nat))
    } else if response_format is Some && response_format->0 != "url"@ && response_format->0 != "b64_json"@ {
        Some("response_format must be \"url\" or \"b64_json\", got "@ + quoted(response_format->0))
    } else if resolution is Some && resolution->0 != "1k"@ && resolution->0 != "2k"@ {
        Some("resolution must be \"1k\" or \"2k\", got "@ + quoted(resolution->0))
    } else {
        None
    }
}

/// Law: a count is accepted exactly when it lies between 1 and 10.
pub proof fn law_count_bounds(n: u8)
    ensures
        common_params_error(Some(n), None, None) is None <==> 1 <= n <= 10,
{
}

/// The aspect ratios the API accepts.
pub open spec fn valid_aspect_ratio(ar: Seq<char>) -> bool {
    ||| ar == "1:1"@
    ||| ar == "16:9"@
    ||| ar == "9:16"@
    ||| ar == "4:3"@
    ||| ar == "3:4"@
    ||| ar == "3:2"@
    ||| ar == "2:3"@
    ||| ar == "2:1"@
    ||| ar == "1:2"@
    ||| ar == "19.5:9"@
    ||| ar == "9:19.5"@
    ||| ar == "20:9"@
    ||| ar == "9:20"@
    ||| ar == "21:9"@
    ||| ar == "5:2"@
    ||| ar == "auto"@
}

/// The message for an unknown aspect ratio, or `None`.
pub open spec fn aspect_ratio_error(aspect_ratio: Option<Seq<char>>) -> Option<Seq<char>> {
    if aspect_ratio is Some && !valid_aspect_ratio(aspect_ratio->0) {
        Some(
            "Invalid aspect_ratio "@ + quoted(aspect_ratio->0)
                + ". Valid options: 1:1, 16:9, 9:16, 4:3, 3:4, 3:2, 2:3, 2:1, 1:2, 19.5:9, 9:19.5, 20:9, 9:20, 21:9, 5:2, auto"@,
        )
    } else {
        None
    }
}

/// The qualities the API accepts.
pub open spec fn valid_quality(q: Seq<char>) -> bool {
    q == "low"@ || q == "medium"@ || q == "auto"@
}

/// The message for an unknown quality, or `None`.
pub open spec fn quality_error(quality: Option<Seq<char>>) -> Option<Seq<char>> {
    if quality is Some && !valid_quality(quality->0) {
        Some("quality must be \"low\", \"medium\", or \"auto\", got "@ + quoted(quality->0))
    } else {
        None
    }
}

/// The message for a quality given to a model that takes none, or `None`.
pub open spec fn quality_support_error(model: Seq<char>, quality: Option<Seq<char>>) -> Option<Seq<char>> {
    if quality is Some && !supports_quality(model) {
        Some("quality is only supported on grok-imagine-image-2.0 (got "@ + quoted(model) + ")"@)
    } else {
        None
    }
}

/// The first failing check of `validate_image_params`, in its order.
pub open spec fn image_params_error(
    n: Option<u8>,
    response_format: Option<Seq<char>>,
    resolution: Option<Seq<char>>,
    aspect_ratio: Option<Seq<char>>,
    quality: Option<Seq<char>>,
) -> Option<Seq<char>> {
    if common_params_error(n, response_format, resolution) is Some {
        common_params_error(n, response_format, resolution)
    } else if aspect_ratio_error(aspect_ratio) is Some {
        aspect_ratio_error(aspect_ratio)
    } else {
        quality_error(quality)
    }
}

/// `Ok` exactly when `expected` is `None`; otherwise the error carries its text.
pub open spec fn reports(r: Result<(), String>, expected: Option<Seq<char>>) -> bool {
    match expected {
        None => r is Ok,
        Some(m) => r matches Err(e) && e@ == m,
    }
}

/// `"` + `s` + `"`.
fn quote(s: &str) -> (r: String)
    ensures
        r@ == quoted(s@),
{
    let mut r = concat("\"", s);
    push_str(&mut r, "\"");
    r
}

/// Checks the count, the response format and the resolution.
pub fn validate_common_params(
    n: Option<u8>,
    response_format: Option<&str>,
    resolution: Option<&str>,
) -> (r: Result<(), String>)
    ensures
        reports(r, common_params_error(n, opt_view(response_format), opt_view(resolution))),
{
    if let Some(n) = n {
        if n < 1 || n > 10 {
            let mut msg = owned("n must be between 1 and 10, got ");
            push_decimal(&mut msg, n as u64);
            return Err(msg);
        }
    }
    if let Some(rf) = response_format {
        if !str_eq(rf, "url") && !str_eq(rf, "b64_json") {
            let mut msg = owned("response_format must be \"url\" or \"b64_json\", got ");
            let q = quote(rf);
            push_str(&mut msg, q.as_str());
            return Err(msg);
        }
    }
    if let Some(res) = resolution {
        if !str_eq(res, "1k") && !str_eq(res, "2k") {
            let mut msg = owned("resolution must be \"1k\" or \"2k\", got ");
            let q = quote(res);
            push_str(&mut msg, q.as_str());
            return Err(msg);
        }
    }
    Ok(())
}

/// Whether `ar` is one of the accepted aspect ratios.
fn is_valid_aspect_ratio(ar: &str) -> (r: bool)
    ensures
        r == valid_aspect_ratio(ar@),
{
    str_eq(ar, "1:1") || str_eq(ar, "16:9") || str_eq(ar, "9:16") || str_eq(ar, "4:3") || str_eq(
        ar,
        "3:4",
    ) || str_eq(ar, "3:2") || str_eq(ar, "2:3") || str_eq(ar, "2:1") || str_eq(ar, "1:2")
        || str_eq(ar, "19.5:9") || str_eq(ar, "9:19.5") || str_eq(ar, "20:9") || str_eq(ar, "9:20")
        || str_eq(ar, "21:9") || str_eq(ar, "5:2") || str_eq(ar, "auto")
}

/// Checks the aspect ratio against the accepted list.
pub fn validate_aspect_ratio(aspect_ratio: Option<&str>) -> (r: Result<(), String>)
    ensures
        reports(r, aspect_ratio_error(opt_view(aspect_ratio))),
{
    if let Some(ar) = aspect_ratio {
        if !is_valid_aspect_ratio(ar) {
            let mut msg = owned("Invalid aspect_ratio ");
            let q = quote(ar);
            push_str(&mut msg, q.as_str());
            push_str(
                &mut msg,
                ". Valid options: 1:1, 16:9, 9:16, 4:3, 3:4, 3:2, 2:3, 2:1, 1:2, 19.5:9, 9:19.5, 20:9, 9:20, 21:9, 5:2, auto",
            );
            return Err(msg);
        }
    }
    Ok(())
}

/// Checks the quality against `low`, `medium` and `auto`.
pub fn validate_quality(quality: Option<&str>) -> (r: Result<(), String>)
    ensures
        reports(r, quality_error(opt_view(quality))),
{
    if let Some(q) = quality {
        if !str_eq(q, "low") && !str_eq(q, "medium") && !str_eq(q, "auto") {
            let mut msg = owned("quality must be \"low\", \"medium\", or \"auto\", got ");
            let qq = quote(q);
            push_str(&mut msg, qq.as_str());
            return Err(msg);
        }
    }
    Ok(())
}

/// Refuses a quality for a model that takes none.
pub fn ensure_quality_supported(model: &str, quality: Option<&str>) -> (r: Result<(), String>)
    ensures
        reports(r, quality_support_error(model@, opt_view(quality))),
{
    if quality.is_some() && !quality_supported(model) {
        let mut msg = owned("quality is only supported on grok-imagine-image-2.0 (got ");
        let q = quote(model);
        push_str(&mut msg, q.as_str());
        push_str(&mut msg, ")");
        return Err(msg);
    }
    Ok(())
}

/// All checks shared by the generation and edit tools, in order.
pub fn validate_image_params(
    n: Option<u8>,
    response_format: Option<&str>,
    resolution: Option<&str>,
    aspect_ratio: Option<&str>,
    quality: Option<&str>,
) -> (r: Result<(), String>)
    ensures
        reports(
            r,
            image_params_error(
                n,
                opt_view(response_format),
                opt_view(resolution),
                opt_view(aspect_ratio),
                opt_view(quality),
            ),
        ),
{
    validate_common_params(n, response_format, resolution)?;
    validate_aspect_ratio(aspect_ratio)?;
    validate_quality(quality)?;
    Ok(())
}

} // verus!
