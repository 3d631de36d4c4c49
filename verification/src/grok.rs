//! Request and response shapes of the xAI image API, and the model rules.
use crate::text::{contains_sub, str_contains};
use vstd::prelude::*;

verus! {

/// Endpoint for text-to-image generation.
pub const GROK_GENERATE_URL: &'static str = "https://api.x.ai/v1/images/generations";

/// Endpoint for image editing.
pub const GROK_EDIT_URL: &'static str = "https://api.x.ai/v1/images/edits";

/// Model used when the caller names none.
pub const DEFAULT_MODEL: &'static str = "grok-imagine-image-2.0";

/// Quality used for headshots when the caller names none.
pub const DEFAULT_HEADSHOT_QUALITY: &'static str = "medium";

/// Largest number of reference images one edit accepts.
pub const MAX_EDIT_IMAGES: usize = 5;

/// Body of a generation request.
pub struct GrokGenerateRequest {
    pub model: String,
    pub prompt: String,
    pub n: Option<u8>,
    pub response_format: Option<String>,
    pub aspect_ratio: Option<String>,
    pub resolution: Option<String>,
    pub quality: Option<String>,
}

/// A source image handed to the edit endpoint (URL or data URI).
#[derive(Debug)]
pub struct GrokImageRef {
    pub url: String,
}

/// Body of an edit request.
pub struct GrokEditRequest {
    pub model: String,
    pub prompt: String,
    pub image: Option<GrokImageRef>,
    pub images: Option<Vec<GrokImageRef>>,
    pub n: Option<u8>,
    pub response_format: Option<String>,
    pub aspect_ratio: Option<String>,
    pub resolution: Option<String>,
    pub quality: Option<String>,
}

/// Body of a successful API answer.
pub struct GrokImageResponse {
    pub data: Vec<GrokImageData>,
}

/// One image of an API answer: a URL, base64 data, or both, and the prompt the
/// service actually used.
pub struct GrokImageData {
    pub url: Option<String>,
    pub b64_json: Option<String>,
    pub revised_prompt: Option<String>,
}

impl View for GrokImageData {
    type V = (Option<Seq<char>>, Option<Seq<char>>, Option<Seq<char>>);

    /// (url, base64 data, revised prompt).
    open spec fn view(&self) -> Self::V {
        (
            crate::text::opt_string_view(self.url),
            crate::text::opt_string_view(self.b64_json),
            crate::text::opt_string_view(self.revised_prompt),
        )
    }
}

/// Models that take a `quality` field: their name holds `2.0` or `2-0`.
pub open spec fn supports_quality(model: Seq<char>) -> bool {
    contains_sub(model, "2.0"@) || contains_sub(model, "2-0"@)
}

/// Whether `model` accepts the `quality` field.
pub fn quality_supported(model: &str) -> (r: bool)
    ensures
        r == supports_quality(model@),
{
    str_contains(model, "2.0") || str_contains(model, "2-0")
}

} // verus!
