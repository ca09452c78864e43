use std::io::Read;

use transportal::middleware::{
    bytes_eq, compress_chunks, has_token, should_compress, should_rewrite_unauthorized,
    trim_whitespace, CompressedStream,
};

#[test]
fn test_trim_whitespace() {
    assert_eq!(trim_whitespace(b""), b"");
    assert_eq!(trim_whitespace(b" "), b"");
    assert_eq!(trim_whitespace(b"abc"), b"abc");
    assert_eq!(trim_whitespace(b" abc"), b"abc");
    assert_eq!(trim_whitespace(b"abc "), b"abc");
    assert_eq!(trim_whitespace(b" abc "), b"abc");
    assert_eq!(trim_whitespace(b"   abc  "), b"abc");
    assert_eq!(trim_whitespace(b"hello world"), b"hello world");
    assert_eq!(trim_whitespace(b" hello world "), b"hello world");
    assert_eq!(trim_whitespace(b"\thello world\t"), b"hello world");
    assert_eq!(trim_whitespace(b" \t hello world \t "), b"hello world");
}

#[test]
fn test_bytes_eq() {
    assert!(bytes_eq(b"", b""));
    assert!(bytes_eq(b"gzip", b"gzip"));
    assert!(!bytes_eq(b"gzip", b"gzi"));
    assert!(!bytes_eq(b"gzip", b"gzip "));
}

#[test]
fn test_has_token_trimmed() {
    assert!(has_token(b"gzip", b"gzip", true));
    assert!(has_token(b"br, gzip", b"gzip", true));
    assert!(has_token(b" gzip , br", b"gzip", true));
    assert!(!has_token(b"br", b"gzip", true));
    assert!(!has_token(b"gzipx", b"gzip", true));
    assert!(!has_token(b"x-gzip", b"gzip", true));
    // case-sensitive exact match per element
    assert!(!has_token(b"GZIP", b"gzip", true));
    // empty elements are harmless
    assert!(has_token(b",,gzip,", b"gzip", true));
    assert!(!has_token(b",,", b"gzip", true));
    assert!(!has_token(b"", b"gzip", true));
}

#[test]
fn test_has_token_exact() {
    assert!(has_token(b"text/html", b"text/html", false));
    assert!(has_token(b"application/json,text/html", b"text/html", false));
    // without trimming, a padded element does not match
    assert!(!has_token(b"application/json, text/html", b"text/html", false));
}

#[test]
fn test_should_compress() {
    assert!(should_compress(
        Some(b"text/event-stream"),
        false,
        Some(b"gzip")
    ));
    assert!(should_compress(
        Some(b" text/event-stream "),
        false,
        Some(b"br, gzip ")
    ));
    // content type must be the event-stream type
    assert!(!should_compress(Some(b"text/html"), false, Some(b"gzip")));
    // no content type at all
    assert!(!should_compress(None, false, Some(b"gzip")));
    // an encoding is already set
    assert!(!should_compress(Some(b"text/event-stream"), true, Some(b"gzip")));
    // no accept-encoding header
    assert!(!should_compress(Some(b"text/event-stream"), false, None));
}

#[test]
fn test_negotiation_without_gzip() {
    // a request lacking gzip in Accept-Encoding is never compressed for,
    // even for an event-stream response
    assert!(!should_compress(
        Some(b"text/event-stream"),
        false,
        Some(b"br")
    ));
    assert!(!should_compress(
        Some(b"text/event-stream"),
        false,
        Some(b"br, deflate, zstd")
    ));
}

#[test]
fn test_should_rewrite_unauthorized() {
    assert!(should_rewrite_unauthorized(true, true, None, None));
    assert!(should_rewrite_unauthorized(
        true,
        true,
        Some(b"text/html"),
        Some(b"text/html")
    ));
    assert!(should_rewrite_unauthorized(
        true,
        true,
        None,
        Some(b"application/xhtml+xml,text/html")
    ));
    // not an unauthorized response
    assert!(!should_rewrite_unauthorized(false, true, None, None));
    // body already has content
    assert!(!should_rewrite_unauthorized(true, false, None, None));
    // response declares a non-HTML content type
    assert!(!should_rewrite_unauthorized(true, true, Some(b"text/plain"), None));
    // client does not accept HTML
    assert!(!should_rewrite_unauthorized(
        true,
        true,
        None,
        Some(b"application/json")
    ));
}

fn gunzip_all(bytes: &[u8]) -> Vec<u8> {
    // the stream is never finished, so read until the decoder reports the
    // truncated end and keep everything decoded up to that point
    let mut decoder = flate2::bufread::GzDecoder::new(bytes);
    let mut out = Vec::new();
    let mut buf = [0u8; 256];
    loop {
        match decoder.read(&mut buf) {
            Ok(0) => break,
            Ok(n) => out.extend_from_slice(&buf[..n]),
            Err(_) => break,
        }
    }
    out
}

#[test]
fn test_compression_transparency() {
    let chunks: Vec<Vec<u8>> = vec![
        b"event: list\ndata: <ul><li>one</li></ul>\n\n".to_vec(),
        b"event: list\ndata: <ul><li>two</li></ul>\n\n".to_vec(),
        b"".to_vec(),
        b"event: removed\ndata: <b>Removed</b>\n\n".to_vec(),
    ];
    let out = compress_chunks(&chunks);
    // one outbound chunk per inbound chunk
    assert_eq!(out.len(), chunks.len());
    let compressed: Vec<u8> = out.concat();
    let original: Vec<u8> = chunks.concat();
    // decompressing the concatenation of all outbound chunks reproduces
    // the concatenated inbound bytes exactly
    assert_eq!(gunzip_all(&compressed), original);
}

#[test]
fn test_compression_transparency_per_chunk() {
    let mut stream = CompressedStream::new();
    let mut compressed: Vec<u8> = Vec::new();
    let mut fed: Vec<u8> = Vec::new();
    for chunk in [&b"hello"[..], &b" "[..], &b"world"[..]] {
        let out = stream.push_chunk(chunk);
        fed.extend_from_slice(chunk);
        compressed.extend_from_slice(&out);
        // after every flush the bytes emitted so far decode to the bytes
        // fed so far
        assert_eq!(gunzip_all(&compressed), fed);
    }
}

#[test]
fn test_compressed_chunks_differ_from_input() {
    // the transform must actually compress, not hand bytes through
    let chunks: Vec<Vec<u8>> = vec![b"some event data".to_vec()];
    let out = compress_chunks(&chunks);
    assert_eq!(out.len(), 1);
    assert_ne!(out[0], chunks[0]);
    // a gzip stream starts with its magic bytes
    assert_eq!(&out[0][..2], &[0x1f, 0x8b]);
}
