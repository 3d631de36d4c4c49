//! Image sources: MIME detection, data URIs, and the sources of an edit request.
use crate::codec::{base64_decode_text, base64_encode, base64_encode_bytes, lemma_encode_head};
use crate::grok::{GrokImageRef, MAX_EDIT_IMAGES};
use crate::text::{
    chars_of, concat, contains, contains_sub, occurs_at, decimal, find_char, first_index_of, owned,
    push_decimal, push_str, slice_chars, starts_with, str_ends_with,
    str_eq, string_from_chars,
};
use vstd::prelude::*;

verus! {

broadcast use vstd::string::group_string_axioms;

// ---------------------------------------------------------------------------
// MIME types
// ---------------------------------------------------------------------------

/// The MIME type guessed from the first characters of base64 image data.
pub open spec fn b64_mime(b64: Seq<char>) -> Seq<char> {
    if "iVBOR"@.is_prefix_of(b64) {
        "image/png"@
    } else if "/9j/"@.is_prefix_of(b64) {
        "image/jpeg"@
    } else if "R0lGOD"@.is_prefix_of(b64) {
        "image/gif"@
    } else if "UklGR"@.is_prefix_of(b64) {
        "image/webp"@
    } else {
        "image/png"@
    }
}

/// Detects the MIME type of base64-encoded image data from its first characters.
pub fn detect_mime_type(b64: &str) -> (r: &'static str)
    ensures
        r@ == b64_mime(b64@),
{
    let v = chars_of(b64);
    if starts_with(&v, "iVBOR") {
        "image/png"
    } else if starts_with(&v, "/9j/") {
        "image/jpeg"
    } else if starts_with(&v, "R0lGOD") {
        "image/gif"
    } else if starts_with(&v, "UklGR") {
        "image/webp"
    } else {
        "image/png"
    }
}

/// The MIME type named by the magic bytes at the start of `data`, if any.
pub open spec fn magic_mime(data: Seq<u8>) -> Option<Seq<char>> {
    if seq![0x89u8, 0x50u8, 0x4Eu8, 0x47u8].is_prefix_of(data) {
        Some("image/png"@)
    } else if seq![0xFFu8, 0xD8u8, 0xFFu8].is_prefix_of(data) {
        Some("image/jpeg"@)
    } else if seq![0x47u8, 0x49u8, 0x46u8].is_prefix_of(data) {
        Some("image/gif"@)
    } else if data.len() >= 12 && data.subrange(8, 12) == seq![0x57u8, 0x45u8, 0x42u8, 0x50u8] {
        Some("image/webp"@)
    } else {
        None
    }
}

/// Whether `data` starts with `magic`.
fn bytes_start_with(data: &[u8], magic: &[u8]) -> (r: bool)
    ensures
        r == magic@.is_prefix_of(data@),
{
    if magic.len() > data.len() {
        return false;
    }
    let mut i: usize = 0;
    while i < magic.len()
        invariant
            magic.len() <= data.len(),
            i <= magic.len(),
            forall|k: int| 0 <= k < i ==> data@[k] == magic@[k],
        decreases magic.len() - i,
    {
        if data[i] != magic[i] {
            return false;
        }
        i = i + 1;
    }
    assert(magic@ =~= data@.subrange(0, magic@.len() as int));
    true
}

/// The MIME type of image bytes, recognised by their magic number (PNG, JPEG, GIF, WebP).
pub fn mime_from_magic(data: &[u8]) -> (r: Option<&'static str>)
    ensures
        match r {
            Some(m) => magic_mime(data@) == Some(m@),
            None => magic_mime(data@) is None,
        },
{
    let png: [u8; 4] = [0x89, 0x50, 0x4E, 0x47];
    let jpeg: [u8; 3] = [0xFF, 0xD8, 0xFF];
    let gif: [u8; 3] = [0x47, 0x49, 0x46];
    assert(png@ =~= seq![0x89u8, 0x50u8, 0x4Eu8, 0x47u8]);
    assert(jpeg@ =~= seq![0xFFu8, 0xD8u8, 0xFFu8]);
    assert(gif@ =~= seq![0x47u8, 0x49u8, 0x46u8]);
    if bytes_start_with(data, &png) {
        Some("image/png")
    } else if bytes_start_with(data, &jpeg) {
        Some("image/jpeg")
    } else if bytes_start_with(data, &gif) {
        Some("image/gif")
    } else if data.len() >= 12 && data[8] == 0x57 && data[9] == 0x45 && data[10] == 0x42
        && data[11] == 0x50 {
        assert(data@.subrange(8, 12) =~= seq![0x57u8, 0x45u8, 0x42u8, 0x50u8]);
        Some("image/webp")
    } else {
        proof {
            if data@.len() >= 12 && data@.subrange(8, 12) == seq![0x57u8, 0x45u8, 0x42u8, 0x50u8] {
                assert(data@.subrange(8, 12)[0] == data@[8]);
                assert(data@.subrange(8, 12)[1] == data@[9]);
                assert(data@.subrange(8, 12)[2] == data@[10]);
                assert(data@.subrange(8, 12)[3] == data@[11]);
            }
        }
        None
    }
}

/// `data` starts with the PNG, JPEG, GIF87a/GIF89a or RIFF…WEBP signature.
pub open spec fn has_image_signature(data: Seq<u8>) -> bool {
    ||| seq![0x89u8, 0x50u8, 0x4Eu8, 0x47u8].is_prefix_of(data)
    ||| seq![0xFFu8, 0xD8u8, 0xFFu8].is_prefix_of(data)
    ||| seq![0x47u8, 0x49u8, 0x46u8, 0x38u8, 0x37u8, 0x61u8].is_prefix_of(data)
    ||| seq![0x47u8, 0x49u8, 0x46u8, 0x38u8, 0x39u8, 0x61u8].is_prefix_of(data)
    ||| {
        &&& seq![0x52u8, 0x49u8, 0x46u8, 0x46u8].is_prefix_of(data)
        &&& data.len() >= 12
        &&& data.subrange(8, 12) == seq![0x57u8, 0x45u8, 0x42u8, 0x50u8]
    }
}

/// Law: for image bytes with a known signature, the MIME type guessed from the
/// first characters of their base64 is the one their magic bytes name.
pub proof fn law_encoded_mime_matches_magic(data: Seq<u8>)
    requires
        has_image_signature(data),
    ensures
        magic_mime(data) == Some(b64_mime(base64_encode(data))),
{
    reveal_strlit("iVBOR");
    reveal_strlit("/9j/");
    reveal_strlit("R0lGOD");
    reveal_strlit("UklGR");
    let e = base64_encode(data);
    lemma_encode_head(data);
    assert(data.len() >= 3);
    if data.len() >= 4 {
        lemma_encode_head(data.skip(3));
        assert(e[4] == base64_encode(data.skip(3))[0]);
        assert(e[5] == base64_encode(data.skip(3))[1]);
    }
    if seq![0x89u8, 0x50u8, 0x4Eu8, 0x47u8].is_prefix_of(data) {
        assert(data[0] == 0x89u8 && data[1] == 0x50u8 && data[2] == 0x4Eu8 && data[3] == 0x47u8);
        assert("iVBOR"@ =~= e.subrange(0, 5));
    } else if seq![0xFFu8, 0xD8u8, 0xFFu8].is_prefix_of(data) {
        assert(data[0] == 0xFFu8 && data[1] == 0xD8u8 && data[2] == 0xFFu8);
        assert("/9j/"@ =~= e.subrange(0, 4));
        assert(!("iVBOR"@.is_prefix_of(e))) by {
            assert("iVBOR"@[0] != e[0]);
        }
    } else if data[0] == 0x47u8 {
        assert(data[1] == 0x49u8 && data[2] == 0x46u8 && data[3] == 0x38u8);
        assert(data[4] == 0x37u8 || data[4] == 0x39u8);
        assert("R0lGOD"@ =~= e.subrange(0, 6));
        assert(!("iVBOR"@.is_prefix_of(e))) by {
            assert("iVBOR"@[0] != e[0]);
        }
        assert(!("/9j/"@.is_prefix_of(e))) by {
            assert("/9j/"@[0] != e[0]);
        }
    } else {
        assert(data[0] == 0x52u8 && data[1] == 0x49u8 && data[2] == 0x46u8 && data[3] == 0x46u8);
        assert("UklGR"@ =~= e.subrange(0, 5));
        assert(!("iVBOR"@.is_prefix_of(e))) by {
            assert("iVBOR"@[0] != e[0]);
        }
        assert(!("/9j/"@.is_prefix_of(e))) by {
            assert("/9j/"@[0] != e[0]);
        }
        assert(!("R0lGOD"@.is_prefix_of(e))) by {
            assert("R0lGOD"@[1] != e[1]);
        }
    }
}

/// The file extension for image bytes (`png` when unrecognised).
pub open spec fn ext_for(data: Seq<u8>) -> Seq<char> {
    match magic_mime(data) {
        Some(m) => if m == "image/png"@ {
            "png"@
        } else if m == "image/jpeg"@ {
            "jpg"@
        } else if m == "image/gif"@ {
            "gif"@
        } else if m == "image/webp"@ {
            "webp"@
        } else {
            "png"@
        },
        None => "png"@,
    }
}

/// The file extension for image bytes, from their magic number; `png` when unknown.
pub fn image_ext_from_bytes(data: &[u8]) -> (r: &'static str)
    ensures
        r@ == ext_for(data@),
{
    match mime_from_magic(data) {
        Some(m) => {
            if str_eq(m, "image/png") {
                "png"
            } else if str_eq(m, "image/jpeg") {
                "jpg"
            } else if str_eq(m, "image/gif") {
                "gif"
            } else if str_eq(m, "image/webp") {
                "webp"
            } else {
                "png"
            }
        },
        None => "png",
    }
}

/// The MIME type of a local file: from its extension, else from its magic number,
/// else `application/octet-stream`.
pub open spec fn path_mime(path: Seq<char>, data: Seq<u8>) -> Seq<char> {
    if ".png"@.is_suffix_of(path) {
        "image/png"@
    } else if ".jpg"@.is_suffix_of(path) || ".jpeg"@.is_suffix_of(path) {
        "image/jpeg"@
    } else if ".gif"@.is_suffix_of(path) {
        "image/gif"@
    } else if ".webp"@.is_suffix_of(path) {
        "image/webp"@
    } else {
        match magic_mime(data) {
            Some(m) => m,
            None => "application/octet-stream"@,
        }
    }
}

/// The MIME type of a local file, by extension and then by content.
pub fn mime_from_path_or_bytes(path: &str, data: &[u8]) -> (r: &'static str)
    ensures
        r@ == path_mime(path@, data@),
{
    if str_ends_with(path, ".png") {
        "image/png"
    } else if str_ends_with(path, ".jpg") || str_ends_with(path, ".jpeg") {
        "image/jpeg"
    } else if str_ends_with(path, ".gif") {
        "image/gif"
    } else if str_ends_with(path, ".webp") {
        "image/webp"
    } else {
        match mime_from_magic(data) {
            Some(m) => m,
            None => "application/octet-stream",
        }
    }
}

// ---------------------------------------------------------------------------
// Data URIs
// ---------------------------------------------------------------------------

/// `data:{mime};base64,{base64 of data}`.
pub open spec fn data_uri_text(mime: Seq<char>, data: Seq<u8>) -> Seq<char> {
    "data:"@ + mime + ";base64,"@ + base64_encode(data)
}

/// Encodes bytes as a base64 data URI of the given MIME type.
pub fn bytes_to_data_uri(data: &[u8], mime: &str) -> (r: String)
    requires
        data@.len() <= isize::MAX,
    ensures
        r@ == data_uri_text(mime@, data@),
{
    let b64 = base64_encode_bytes(data);
    let mut r = concat("data:", mime);
    push_str(&mut r, ";base64,");
    push_str(&mut r, b64.as_str());
    r
}

/// The data URI of a local file with contents `data`.
pub open spec fn local_data_uri(path: Seq<char>, data: Seq<u8>) -> Seq<char> {
    data_uri_text(path_mime(path, data), data)
}

/// The data URI for the contents `data` of the local file `path`; its MIME type
/// comes from the path's extension, else from the bytes.
pub fn local_file_data_uri(path: &str, data: &[u8]) -> (r: String)
    requires
        data@.len() <= isize::MAX,
    ensures
        r@ == local_data_uri(path@, data@),
{
    let mime = mime_from_path_or_bytes(path, data);
    bytes_to_data_uri(data, mime)
}

/// How a data URI splits: `Err` with the message for a malformed one, else the
/// base64 payload.
pub open spec fn data_uri_payload(src: Seq<char>) -> Result<Seq<char>, Seq<char>> {
    if !"data:"@.is_prefix_of(src) {
        Err("Not a data URI"@)
    } else {
        let rest = src.skip(5);
        match first_index_of(rest, ',') {
            None => Err("Malformed data URI (missing comma)"@),
            Some(idx) => if !contains_sub(rest.take(idx), ";base64"@) {
                Err("Only base64 data URIs are supported"@)
            } else {
                Ok(rest.skip(idx + 1))
            },
        }
    }
}

/// The base64 payload of a `data:` URI, or the message for a malformed one.
fn data_uri_payload_text(src: &str) -> (r: Result<String, String>)
    ensures
        match data_uri_payload(src@) {
            Err(m) => r matches Err(e) && e@ == m,
            Ok(p) => r matches Ok(t) && t@ == p,
        },
{
    let v = chars_of(src);
    if !starts_with(&v, "data:") {
        return Err(owned("Not a data URI"));
    }
    proof {
        reveal_strlit("data:");
    }
    let rest = slice_chars(&v, 5, v.len());
    assert(rest@ =~= src@.skip(5));
    match find_char(&rest, ',') {
        None => Err(owned("Malformed data URI (missing comma)")),
        Some(idx) => {
            let meta = slice_chars(&rest, 0, idx);
            assert(meta@ =~= rest@.take(idx as int));
            if !contains(&meta, ";base64") {
                return Err(owned("Only base64 data URIs are supported"));
            }
            let payload = slice_chars(&rest, idx + 1, rest.len());
            assert(payload@ =~= rest@.skip(idx + 1));
            Ok(string_from_chars(&payload))
        },
    }
}

/// Decodes a `data:` URI with a base64 payload into its bytes.
pub fn decode_data_uri(src: &str) -> (r: Result<Vec<u8>, String>)
    ensures
        match data_uri_payload(src@) {
            Err(m) => r matches Err(e) && e@ == m,
            Ok(payload) => {
                &&& r is Ok <==> exists|d: Seq<u8>| payload == base64_encode(d)
                &&& forall|d: Seq<u8>| payload == base64_encode(d) ==> (r matches Ok(v) && v@ == d)
                &&& r matches Err(e) ==> "Failed to decode data URI: "@.is_prefix_of(e@)
            },
        },
{
    let text = data_uri_payload_text(src)?;
    match base64_decode_text(text.as_str()) {
        Ok(bytes) => Ok(bytes),
        Err(e) => {
            let m = concat("Failed to decode data URI: ", e.as_str());
            assert("Failed to decode data URI: "@.is_prefix_of(m@)) by {
                assert(m@.subrange(0, "Failed to decode data URI: "@.len() as int) =~= "Failed to decode data URI: "@);
            }
            Err(m)
        },
    }
}

/// Law: the payload of the data URI built for `data` is the base64 of `data`,
/// whatever the MIME type, as long as it holds no comma; so `decode_data_uri`
/// gives back the bytes that `bytes_to_data_uri` encoded.
#[verifier::rlimit(40)]
pub proof fn law_data_uri_round_trip(mime: Seq<char>, data: Seq<u8>)
    requires
        !mime.contains(','),
    ensures
        data_uri_payload(data_uri_text(mime, data)) == Ok::<Seq<char>, Seq<char>>(base64_encode(data)),
{
    reveal_strlit("data:");
    reveal_strlit(";base64,");
    reveal_strlit(";base64");
    let uri = data_uri_text(mime, data);
    let rest = uri.skip(5);
    let m: int = mime.len() as int;
    assert(rest =~= mime + ";base64,"@ + base64_encode(data));
    assert(rest[m + 7] == ',');
    assert forall|j: int| 0 <= j < m + 7 implies rest[j] != ',' by {
        if j < m {
            assert(rest[j] == mime[j]);
        }
    }
    crate::text::lemma_first_index_unique(rest, ',', m + 7);
    assert(occurs_at(rest.take(m + 7), ";base64"@, m)) by {
        assert(rest.take(m + 7).skip(m).subrange(0, 7) =~= ";base64"@);
    }
    assert(rest.skip(m + 8) =~= base64_encode(data));
    assert("data:"@.is_prefix_of(uri)) by {
        assert(uri.subrange(0, 5) =~= "data:"@);
    }
}

// ---------------------------------------------------------------------------
// Image sources
// ---------------------------------------------------------------------------

/// Where the bytes of an image source come from.
#[derive(Debug, Clone, Copy)]
pub enum ImageSourceKind {
    /// A `data:` URI, decoded in place.
    DataUri,
    /// An `http://` or `https://` URL.
    Remote,
    /// Anything else: a path on the local file system.
    LocalFile,
}

/// The kind of an image source.
pub open spec fn source_kind(src: Seq<char>) -> ImageSourceKind {
    if "data:"@.is_prefix_of(src) {
        ImageSourceKind::DataUri
    } else if "http://"@.is_prefix_of(src) || "https://"@.is_prefix_of(src) {
        ImageSourceKind::Remote
    } else {
        ImageSourceKind::LocalFile
    }
}

/// Classifies an image source as a data URI, a remote URL, or a local path.
pub fn image_source_kind(src: &str) -> (k: ImageSourceKind)
    ensures
        k == source_kind(src@),
{
    let v = chars_of(src);
    if starts_with(&v, "data:") {
        ImageSourceKind::DataUri
    } else if starts_with(&v, "http://") || starts_with(&v, "https://") {
        ImageSourceKind::Remote
    } else {
        ImageSourceKind::LocalFile
    }
}

/// `read_file`, asked for a path with the characters `path`, may answer `out`.
pub open spec fn read_gave<F: Fn(&str) -> Result<Vec<u8>, String>>(
    read_file: F,
    path: Seq<char>,
    out: Result<Vec<u8>, String>,
) -> bool {
    exists|p: &str| p@ == path && call_ensures(read_file, (p,), out)
}

/// What a file reader must offer: it can be asked for any path, and what it reads
/// fits in memory.
pub open spec fn reader_ok<F: Fn(&str) -> Result<Vec<u8>, String>>(read_file: F) -> bool {
    &&& forall|p: &str| call_requires(read_file, (p,))
    &&& forall|p: &str, d: Vec<u8>|
        #[trigger] call_ensures(read_file, (p,), Ok::<Vec<u8>, String>(d)) ==> d@.len()
            <= isize::MAX
}

/// `r` is what resolving the source `src` may give: URLs and data URIs pass through
/// unchanged; a local path becomes the data URI of what `read_file` read from it,
/// or the reader's error.
pub open spec fn resolves_to<F: Fn(&str) -> Result<Vec<u8>, String>>(
    read_file: F,
    src: Seq<char>,
    r: Result<String, String>,
) -> bool {
    if !(source_kind(src) is LocalFile) {
        r matches Ok(u) && u@ == src
    } else {
        match r {
            Ok(u) => exists|d: Vec<u8>| #[trigger]
                read_gave(read_file, src, Ok(d)) && u@ == local_data_uri(src, d@),
            Err(e) => read_gave(read_file, src, Err(e)),
        }
    }
}

/// Normalizes a user-supplied image source to a value the API accepts: HTTP(S) URLs
/// and `data:` URIs pass through; anything else is a local path, read with
/// `read_file` and encoded as a data URI.
pub fn resolve_image_source<F: Fn(&str) -> Result<Vec<u8>, String>>(src: &str, read_file: &F) -> (r:
    Result<String, String>)
    requires
        reader_ok(*read_file),
    ensures
        resolves_to(*read_file, src@, r),
{
    match image_source_kind(src) {
        ImageSourceKind::LocalFile => {
            let read = read_file(src);
            match read {
                Ok(data) => {
                    let uri = local_file_data_uri(src, data.as_slice());
                    assert(read_gave(*read_file, src@, Ok::<Vec<u8>, String>(data)));
                    Ok(uri)
                },
                Err(e) => {
                    assert(read_gave(*read_file, src@, Err::<Vec<u8>, String>(e)));
                    Err(e)
                },
            }
        },
        _ => Ok(owned(src)),
    }
}

/// The message for more than the allowed number of edit images.
pub open spec fn too_many_images_message(n: nat) -> Seq<char> {
    "images supports at most 5 entries, got "@ + decimal(n) + "."@
}

/// The source at `k` is the first to fail, with error `e`: all before it resolve.
pub open spec fn first_failure<F: Fn(&str) -> Result<Vec<u8>, String>>(
    read_file: F,
    list: Seq<String>,
    k: int,
    e: String,
) -> bool {
    &&& 0 <= k < list.len()
    &&& resolves_to(read_file, list[k]@, Err::<String, String>(e))
    &&& forall|j: int| 0 <= j < k ==> #[trigger] resolves_ok(read_file, list[j]@)
}

/// Resolving `src` may succeed.
pub open spec fn resolves_ok<F: Fn(&str) -> Result<Vec<u8>, String>>(read_file: F, src: Seq<char>) -> bool {
    exists|u: String| #[trigger] resolves_to(read_file, src, Ok::<String, String>(u))
}

/// Resolves each source of `list` in order, stopping at the first failure.
fn resolve_sources<F: Fn(&str) -> Result<Vec<u8>, String>>(list: &Vec<String>, read_file: &F) -> (r:
    Result<Vec<GrokImageRef>, String>)
    requires
        reader_ok(*read_file),
    ensures
        match r {
            Ok(resolved) => {
                &&& resolved@.len() == list@.len()
                &&& forall|i: int|
                    0 <= i < list@.len() ==> #[trigger] resolves_to(
                        *read_file,
                        list@[i]@,
                        Ok::<String, String>(resolved@[i].url),
                    )
            },
            Err(e) => exists|k: int| #[trigger] first_failure(*read_file, list@, k, e),
        },
{
    let mut refs: Vec<GrokImageRef> = Vec::new();
    let mut i: usize = 0;
    while i < list.len()
        invariant
            reader_ok(*read_file),
            i <= list.len(),
            refs@.len() == i,
            forall|j: int|
                0 <= j < i ==> #[trigger] resolves_to(
                    *read_file,
                    list@[j]@,
                    Ok::<String, String>(refs@[j].url),
                ),
        decreases list.len() - i,
    {
        let res = resolve_image_source(list[i].as_str(), read_file);
        match res {
            Ok(url) => {
                refs.push(GrokImageRef { url });
            },
            Err(e) => {
                assert forall|j: int| 0 <= j < i implies #[trigger] resolves_ok(
                    *read_file,
                    list@[j]@,
                ) by {
                    assert(resolves_to(
                        *read_file,
                        list@[j]@,
                        Ok::<String, String>(refs@[j].url),
                    ));
                }
                assert(resolves_to(*read_file, list@[i as int]@, Err::<String, String>(e)));
                let failed: Result<Vec<GrokImageRef>, String> = Err(e);
                assert(first_failure(*read_file, list@, i as int, failed->Err_0));
                return failed;
            },
        }
        i = i + 1;
    }
    Ok(refs)
}

/// The `image` and `images` fields of an edit request.
pub type EditFields = (Option<GrokImageRef>, Option<Vec<GrokImageRef>>);

/// `r` is what turning `image_url` and `images` into edit fields may give: an error
/// for both or neither, for no image or more than five; otherwise the resolved
/// source or sources, or the error of the first source that failed.
pub open spec fn edit_fields_result<F: Fn(&str) -> Result<Vec<u8>, String>>(
    read_file: F,
    image_url: Option<String>,
    images: Option<Vec<String>>,
    r: Result<EditFields, String>,
) -> bool {
    match (image_url, images) {
        (Some(_), Some(_)) => r matches Err(e) && e@
            == "Provide either image_url or images, not both."@,
        (None, None) => r matches Err(e) && e@ == "Provide either image_url or images."@,
        (Some(src), None) => match r {
            Ok((image, images)) => {
                &&& images is None
                &&& image is Some
                &&& resolves_to(read_file, src@, Ok::<String, String>(image->0.url))
            },
            Err(e) => resolves_to(read_file, src@, Err::<String, String>(e)),
        },
        (None, Some(list)) => if list@.len() == 0 {
            r matches Err(e) && e@ == "images must contain at least one source image."@
        } else if list@.len() > 5 {
            r matches Err(e) && e@ == too_many_images_message(list@.len())
        } else {
            match r {
                Ok((image, images)) => {
                    &&& image is None
                    &&& images is Some
                    &&& images->0@.len() == list@.len()
                    &&& forall|i: int|
                        0 <= i < list@.len() ==> #[trigger] resolves_to(
                            read_file,
                            list@[i]@,
                            Ok::<String, String>(images->0@[i].url),
                        )
                },
                Err(e) => exists|k: int| #[trigger] first_failure(read_file, list@, k, e),
            }
        },
    }
}

/// Turns `image_url` or `images` (exactly one of them, at most five images) into the
/// `image` or `images` field of an edit request.
pub fn resolve_edit_image_fields<F: Fn(&str) -> Result<Vec<u8>, String>>(
    image_url: Option<String>,
    images: Option<Vec<String>>,
    read_file: &F,
) -> (r: Result<EditFields, String>)
    requires
        reader_ok(*read_file),
    ensures
        edit_fields_result(*read_file, image_url, images, r),
{
    match (image_url, images) {
        (Some(_), Some(_)) => Err(owned("Provide either image_url or images, not both.")),
        (None, None) => Err(owned("Provide either image_url or images.")),
        (Some(src), None) => {
            let url = resolve_image_source(src.as_str(), read_file)?;
            Ok((Some(GrokImageRef { url }), None))
        },
        (None, Some(list)) => {
            if list.len() == 0 {
                return Err(owned("images must contain at least one source image."));
            }
            if list.len() > MAX_EDIT_IMAGES {
                let mut m = owned("images supports at most 5 entries, got ");
                push_decimal(&mut m, list.len() as u64);
                push_str(&mut m, ".");
                return Err(m);
            }
            let refs = resolve_sources(&list, read_file)?;
            Ok((None, Some(refs)))
        },
    }
}

} // verus!
