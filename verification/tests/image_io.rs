use grok_image::codec::{base64_decode_text, base64_encode_bytes};
use grok_image::image_io::{
    bytes_to_data_uri, decode_data_uri, detect_mime_type, image_ext_from_bytes,
    image_source_kind, local_file_data_uri, mime_from_magic, mime_from_path_or_bytes,
    resolve_edit_image_fields, resolve_image_source, ImageSourceKind,
};

fn no_files(path: &str) -> Result<Vec<u8>, String> {
    Err(format!("Failed to read file {path}: not available"))
}

#[test]
fn urls_and_data_uris_pass_through() {
    assert_eq!(
        resolve_image_source("https://example.com/a.png", &no_files).unwrap(),
        "https://example.com/a.png"
    );
    assert_eq!(
        resolve_image_source("data:image/png;base64,abc", &no_files).unwrap(),
        "data:image/png;base64,abc"
    );
}

#[test]
fn magic_bytes_to_ext() {
    assert_eq!(image_ext_from_bytes(&[0x89, 0x50, 0x4E, 0x47]), "png");
    assert_eq!(image_ext_from_bytes(&[0xFF, 0xD8, 0xFF, 0x00]), "jpg");
    assert_eq!(image_ext_from_bytes(b"GIF89a"), "gif");
    assert_eq!(image_ext_from_bytes(b"not-an-image"), "png");
}

#[test]
fn edit_sources_are_mutually_exclusive() {
    let err = resolve_edit_image_fields(
        Some("https://a".into()),
        Some(vec!["https://b".into()]),
        &no_files,
    )
    .unwrap_err();
    assert!(err.contains("not both"));
    assert!(resolve_edit_image_fields(None, None, &no_files).is_err());
    assert!(resolve_edit_image_fields(None, Some(vec![]), &no_files).is_err());
    let too_many = vec!["https://x".into(); 6];
    let err = resolve_edit_image_fields(None, Some(too_many), &no_files).unwrap_err();
    assert!(err.contains("at most 5"));
}

#[test]
fn b64_prefix_mime() {
    assert_eq!(detect_mime_type("iVBORw0KGgo"), "image/png");
    assert_eq!(detect_mime_type("/9j/4AAQ"), "image/jpeg");
}

#[test]
fn b64_prefix_mime_other_kinds() {
    assert_eq!(detect_mime_type("R0lGODlh"), "image/gif");
    assert_eq!(detect_mime_type("UklGRiQ"), "image/webp");
    assert_eq!(detect_mime_type("something else"), "image/png");
    assert_eq!(detect_mime_type(""), "image/png");
}

#[test]
fn magic_numbers() {
    assert_eq!(mime_from_magic(&[0x89, 0x50, 0x4E, 0x47, 0x0D]), Some("image/png"));
    assert_eq!(mime_from_magic(&[0xFF, 0xD8, 0xFF]), Some("image/jpeg"));
    assert_eq!(mime_from_magic(b"GIF87a"), Some("image/gif"));
    assert_eq!(mime_from_magic(b"RIFF\x24\x00\x00\x00WEBPVP8 "), Some("image/webp"));
    assert_eq!(image_ext_from_bytes(b"RIFF\x24\x00\x00\x00WEBPVP8 "), "webp");
    assert_eq!(mime_from_magic(b"RIFF\x24\x00\x00\x00WEB"), None);
    assert_eq!(mime_from_magic(&[0x89, 0x50]), None);
    assert_eq!(mime_from_magic(&[]), None);
}

#[test]
fn mime_by_extension_then_content() {
    assert_eq!(mime_from_path_or_bytes("a.png", b"GIF89a"), "image/png");
    assert_eq!(mime_from_path_or_bytes("a.jpg", &[]), "image/jpeg");
    assert_eq!(mime_from_path_or_bytes("a.jpeg", &[]), "image/jpeg");
    assert_eq!(mime_from_path_or_bytes("a.gif", &[]), "image/gif");
    assert_eq!(mime_from_path_or_bytes("a.webp", &[]), "image/webp");
    assert_eq!(mime_from_path_or_bytes("photo", b"GIF89a"), "image/gif");
    assert_eq!(mime_from_path_or_bytes("photo", b"plain"), "application/octet-stream");
    assert_eq!(mime_from_path_or_bytes("A.PNG", b"plain"), "application/octet-stream");
}

#[test]
fn base64_encoding_vectors() {
    assert_eq!(base64_encode_bytes(b"Man"), "TWFu");
    assert_eq!(base64_encode_bytes(b"Ma"), "TWE=");
    assert_eq!(base64_encode_bytes(b"M"), "TQ==");
    assert_eq!(base64_encode_bytes(b""), "");
    assert_eq!(base64_encode_bytes(&[0xFF, 0xFF, 0xFF]), "////");
    assert_eq!(base64_encode_bytes(b"hello world~"), "aGVsbG8gd29ybGR+");
    assert_eq!(base64_decode_text("aGVsbG8gd29ybGR+").unwrap(), b"hello world~".to_vec());
    assert!(base64_decode_text("not base64!").is_err());
}

#[test]
fn data_uri_encoding() {
    assert_eq!(bytes_to_data_uri(&[1, 2, 3], "image/jpeg"), "data:image/jpeg;base64,AQID");
    assert_eq!(
        local_file_data_uri("x.bin", &[0x89, 0x50, 0x4E, 0x47]),
        "data:image/png;base64,iVBORw=="
    );
}

#[test]
fn data_uri_round_trip() {
    let data: Vec<u8> = (0u8..=255).collect();
    let uri = bytes_to_data_uri(&data, "image/png");
    assert_eq!(decode_data_uri(&uri).unwrap(), data);
    let uri = bytes_to_data_uri(b"x", "text/plain;charset=utf-8");
    assert_eq!(decode_data_uri(&uri).unwrap(), b"x".to_vec());
}

#[test]
fn data_uri_errors() {
    assert_eq!(decode_data_uri("http://x").unwrap_err(), "Not a data URI");
    assert_eq!(
        decode_data_uri("data:image/png;base64").unwrap_err(),
        "Malformed data URI (missing comma)"
    );
    assert_eq!(
        decode_data_uri("data:text/plain,hello").unwrap_err(),
        "Only base64 data URIs are supported"
    );
    assert!(decode_data_uri("data:image/png;base64,@@@")
        .unwrap_err()
        .starts_with("Failed to decode data URI: "));
    // the first comma ends the metadata
    assert_eq!(
        decode_data_uri("data:image/png,x;base64,AQID").unwrap_err(),
        "Only base64 data URIs are supported"
    );
}

#[test]
fn source_kinds() {
    assert!(matches!(image_source_kind("data:image/png;base64,AA=="), ImageSourceKind::DataUri));
    assert!(matches!(image_source_kind("http://a/b.png"), ImageSourceKind::Remote));
    assert!(matches!(image_source_kind("https://a/b.png"), ImageSourceKind::Remote));
    assert!(matches!(image_source_kind("/tmp/a.png"), ImageSourceKind::LocalFile));
    assert!(matches!(image_source_kind("ftp://a"), ImageSourceKind::LocalFile));
}

#[test]
fn local_paths_are_read_and_encoded() {
    let read = |path: &str| -> Result<Vec<u8>, String> {
        assert_eq!(path, "/tmp/photo.jpg");
        Ok(vec![1, 2, 3])
    };
    assert_eq!(
        resolve_image_source("/tmp/photo.jpg", &read).unwrap(),
        "data:image/jpeg;base64,AQID"
    );
    assert_eq!(
        resolve_image_source("/tmp/missing.png", &no_files).unwrap_err(),
        "Failed to read file /tmp/missing.png: not available"
    );
}

#[test]
fn edit_sources_resolve_in_order() {
    let read = |path: &str| -> Result<Vec<u8>, String> {
        if path == "ok.gif" {
            Ok(b"GIF89a".to_vec())
        } else {
            Err(format!("cannot read {path}"))
        }
    };
    let (image, images) =
        resolve_edit_image_fields(Some("ok.gif".into()), None, &read).unwrap();
    assert_eq!(image.unwrap().url, "data:image/gif;base64,R0lGODlh");
    assert!(images.is_none());

    let (image, images) = resolve_edit_image_fields(
        None,
        Some(vec!["https://a/1.png".into(), "ok.gif".into()]),
        &read,
    )
    .unwrap();
    assert!(image.is_none());
    let urls: Vec<String> = images.unwrap().into_iter().map(|r| r.url).collect();
    assert_eq!(urls, vec!["https://a/1.png", "data:image/gif;base64,R0lGODlh"]);

    let err = resolve_edit_image_fields(
        None,
        Some(vec!["ok.gif".into(), "bad1".into(), "bad2".into()]),
        &read,
    )
    .unwrap_err();
    assert_eq!(err, "cannot read bad1");

    assert_eq!(
        resolve_edit_image_fields(None, Some(vec!["https://x".into(); 6]), &no_files).unwrap_err(),
        "images supports at most 5 entries, got 6."
    );
    assert_eq!(
        resolve_edit_image_fields(None, None, &no_files).unwrap_err(),
        "Provide either image_url or images."
    );
    assert_eq!(
        resolve_edit_image_fields(None, Some(vec![]), &no_files).unwrap_err(),
        "images must contain at least one source image."
    );
    assert!(resolve_edit_image_fields(None, Some(vec!["https://x".into(); 5]), &no_files).is_ok());
}

#[test]
fn encoded_signatures_give_the_magic_mime() {
    let samples: [&[u8]; 5] = [
        &[0x89, 0x50, 0x4E, 0x47, 0x0D, 0x0A],
        &[0xFF, 0xD8, 0xFF, 0xE0],
        b"GIF87a..",
        b"GIF89a",
        b"RIFF\x10\x00\x00\x00WEBPVP8 ",
    ];
    for data in samples {
        let b64 = base64_encode_bytes(data);
        assert_eq!(Some(detect_mime_type(&b64)), mime_from_magic(data));
    }
}

#[test]
fn only_canonical_base64_decodes() {
    assert!(base64_decode_text("@@").is_err());
    assert!(base64_decode_text("QQ").is_err());
    assert!(base64_decode_text("QR==").is_err());
    assert_eq!(base64_decode_text("QQ==").unwrap(), b"A".to_vec());
    assert_eq!(base64_decode_text("").unwrap(), Vec::<u8>::new());
    assert!(decode_data_uri("data:image/png;base64,@@")
        .unwrap_err()
        .starts_with("Failed to decode data URI: "));
}
