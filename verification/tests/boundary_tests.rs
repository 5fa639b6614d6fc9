use cool_thing::boundary::{text_chunk_after, text_chunk_before, text_chunk_content_get,
    text_chunk_is_last_in_text_node, text_chunk_is_removed, text_chunk_remove, text_chunk_replace,
    TextChunkContent};
use cool_thing::encoding::validate_utf8;
use cool_thing::errors::{error_status, ErrorKind, STATUS_BOUNDARY_MISUSE, STATUS_HANDLER_REJECTED,
    STATUS_MALFORMED_INPUT, STATUS_OK, STATUS_UNEXPECTED_MODE_SWITCH};
use cool_thing::text_chunk::TextChunk;

#[test]
fn boundary_misuse() {
    let mut chunk = TextChunk::new(b"X".to_vec(), false);
    assert_eq!(text_chunk_before(&mut chunk, b"A", true), STATUS_OK);
    assert_eq!(text_chunk_after(&mut chunk, b"B", true), STATUS_OK);
    let committed = chunk.flush();
    assert_eq!(committed, b"AXB".to_vec());

    // every mutating operation on the finalized chunk fails with a negative
    // status and corrupts nothing
    assert!(text_chunk_before(&mut chunk, b"Z", true) < 0);
    assert!(text_chunk_after(&mut chunk, b"Z", true) < 0);
    assert!(text_chunk_replace(&mut chunk, b"Z", true) < 0);
    assert_eq!(text_chunk_before(&mut chunk, b"Z", true), STATUS_BOUNDARY_MISUSE);
    text_chunk_remove(&mut chunk);
    assert!(!text_chunk_is_removed(&chunk));
    let content = text_chunk_content_get(&chunk);
    assert_eq!(content.data(), b"X");
}

#[test]
fn boundary_reads() {
    let chunk = TextChunk::new(b"hello".to_vec(), true);
    let content = text_chunk_content_get(&chunk);
    assert_eq!(content.data(), b"hello");
    assert_eq!(content.len(), 5);
    assert!(text_chunk_is_last_in_text_node(&chunk));
    assert!(!text_chunk_is_removed(&chunk));
}

#[test]
fn boundary_content_view_is_direct() {
    let chunk = TextChunk::new(b"abc".to_vec(), false);
    let view = TextChunkContent::new(&chunk);
    assert_eq!(view.data(), b"abc");
    assert_eq!(view.len(), 3);
}

#[test]
fn boundary_escapes_text_insertions() {
    let mut chunk = TextChunk::new(Vec::new(), false);
    assert_eq!(text_chunk_before(&mut chunk, b"<script>", false), STATUS_OK);
    let out = chunk.flush();
    assert_eq!(out, b"&lt;script&gt;".to_vec());
}

#[test]
fn boundary_remove_then_replace_accumulates() {
    let mut chunk = TextChunk::new(b"orig".to_vec(), false);
    assert_eq!(text_chunk_replace(&mut chunk, b"P", true), STATUS_OK);
    assert_eq!(text_chunk_replace(&mut chunk, b"Q", true), STATUS_OK);
    assert!(text_chunk_is_removed(&chunk));
    let out = chunk.flush();
    assert_eq!(out, b"PQ".to_vec());
}

#[test]
fn status_codes_are_distinct_and_negative() {
    assert_eq!(error_status(ErrorKind::MalformedInput), STATUS_MALFORMED_INPUT);
    assert_eq!(error_status(ErrorKind::UnexpectedModeSwitch), STATUS_UNEXPECTED_MODE_SWITCH);
    assert_eq!(error_status(ErrorKind::HandlerRejected), STATUS_HANDLER_REJECTED);
    assert_eq!(error_status(ErrorKind::BoundaryMisuse), STATUS_BOUNDARY_MISUSE);
    let all = [
        STATUS_MALFORMED_INPUT,
        STATUS_UNEXPECTED_MODE_SWITCH,
        STATUS_HANDLER_REJECTED,
        STATUS_BOUNDARY_MISUSE,
    ];
    for (i, a) in all.iter().enumerate() {
        assert!(*a < STATUS_OK);
        for (j, b) in all.iter().enumerate() {
            if i != j {
                assert_ne!(a, b);
            }
        }
    }
}

#[test]
fn malformed_text_content_is_rejected() {
    let mut chunk = TextChunk::new(b"X".to_vec(), false);
    let status = text_chunk_before(&mut chunk, &[0xFF], false);
    assert_eq!(status, STATUS_MALFORMED_INPUT);
    // the failed operation's effect is discarded
    let out = chunk.flush();
    assert_eq!(out, b"X".to_vec());
}

#[test]
fn html_content_is_inserted_verbatim_without_validation() {
    let mut chunk = TextChunk::new(Vec::new(), false);
    let status = text_chunk_before(&mut chunk, &[0xFF, b'a'], true);
    assert_eq!(status, STATUS_OK);
    let out = chunk.flush();
    assert_eq!(out, vec![0xFF, b'a']);
}

#[test]
fn utf8_validation() {
    assert!(validate_utf8(b""));
    assert!(validate_utf8(b"plain ascii"));
    assert!(validate_utf8(&[0xC3, 0xA9])); // two-byte sequence
    assert!(validate_utf8(&[0xE2, 0x82, 0xAC])); // three-byte sequence
    assert!(validate_utf8(&[0xF0, 0x9F, 0x98, 0x80])); // four-byte sequence
    assert!(!validate_utf8(&[0x80])); // stray continuation
    assert!(!validate_utf8(&[0xC0, 0x80])); // overlong two-byte form
    assert!(!validate_utf8(&[0xED, 0xA0, 0x80])); // surrogate code point
    assert!(!validate_utf8(&[0xE2, 0x82])); // truncated sequence
    assert!(!validate_utf8(&[0xF5, 0x80, 0x80, 0x80])); // beyond the last code point
}

#[test]
fn malformed_text_content_is_rejected_on_after_and_replace() {
    let mut chunk = TextChunk::new(b"X".to_vec(), false);
    assert_eq!(text_chunk_after(&mut chunk, &[0xC0, 0x80], false), STATUS_MALFORMED_INPUT);
    assert_eq!(text_chunk_replace(&mut chunk, &[0x80], false), STATUS_MALFORMED_INPUT);
    // the failed operations left the chunk untouched
    assert!(!text_chunk_is_removed(&chunk));
    let out = chunk.flush();
    assert_eq!(out, b"X".to_vec());
}
