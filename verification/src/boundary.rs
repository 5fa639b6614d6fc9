use vstd::prelude::*;

use crate::encoding::{is_valid_utf8, validate_utf8};
use crate::errors::{ErrorKind, error_status, status_of, STATUS_OK};
use crate::text_chunk::{is_html_content, with_after, with_before, with_remove, with_replace,
    ContentType, TextChunk};

verus! {

/// A read-only view of a text chunk's current content, handed across the
/// boundary layer. It borrows the chunk's buffer and must not outlive the
/// processing step that produced it.
pub struct TextChunkContent<'a> {
    pub data: &'a [u8],
    pub len: usize,
}

impl<'a> TextChunkContent<'a> {
    /// Captures the chunk's original content without copying it.
    pub fn new(chunk: &'a TextChunk) -> (r: TextChunkContent<'a>)
        ensures
            r.data@ == chunk@.content,
            r.len == chunk@.content.len(),
    {
        let content = chunk.as_bytes();
        TextChunkContent { data: content, len: content.len() }
    }

    /// The viewed bytes.
    pub fn data(&self) -> (r: &'a [u8])
        ensures
            r@ == self.data@,
    {
        self.data
    }

    /// The number of viewed bytes.
    pub fn len(&self) -> (r: usize)
        ensures
            r == self.len,
    {
        self.len
    }
}

/// Boundary read of a chunk's content: a zero-copy view, valid only for the
/// current processing step.
pub fn text_chunk_content_get<'a>(chunk: &'a TextChunk) -> (r: TextChunkContent<'a>)
    ensures
        r.data@ == chunk@.content,
        r.len == chunk@.content.len(),
{
    TextChunkContent::new(chunk)
}

/// Boundary read: whether this chunk ends its text node.
pub fn text_chunk_is_last_in_text_node(chunk: &TextChunk) -> (r: bool)
    ensures
        r == chunk@.last_in_text_node,
{
    chunk.last_in_text_node()
}

/// Boundary mutation: queue content before the chunk. Returns a non-negative
/// status on success. On a finalized chunk, or when text content (to be
/// escaped) is not well-formed UTF-8, it returns a negative status and leaves
/// every committed edit untouched; HTML content is taken verbatim with no
/// validation.
pub fn text_chunk_before(chunk: &mut TextChunk, content: &[u8], is_html: bool) -> (status: i32)
    ensures
        old(chunk)@.finalized ==> status == status_of(ErrorKind::BoundaryMisuse) && final(chunk)@
            == old(chunk)@,
        !old(chunk)@.finalized && !is_html && !is_valid_utf8(content@) ==> status == status_of(
            ErrorKind::MalformedInput,
        ) && final(chunk)@ == old(chunk)@,
        !old(chunk)@.finalized && (is_html || is_valid_utf8(content@)) ==> status == STATUS_OK
            && final(chunk)@ == with_before(old(chunk)@, content@, is_html),
        status < 0 <==> (old(chunk)@.finalized || (!is_html && !is_valid_utf8(content@))),
{
    if chunk.finalized() {
        return error_status(ErrorKind::BoundaryMisuse);
    }
    if !is_html && !validate_utf8(content) {
        return error_status(ErrorKind::MalformedInput);
    }
    let content_type = if is_html {
        ContentType::Html
    } else {
        ContentType::Text
    };
    match chunk.before(content, content_type) {
        Ok(()) => STATUS_OK,
        Err(e) => error_status(e),
    }
}

/// Boundary mutation: queue content after the chunk. Status conventions as
/// for `text_chunk_before`.
pub fn text_chunk_after(chunk: &mut TextChunk, content: &[u8], is_html: bool) -> (status: i32)
    ensures
        old(chunk)@.finalized ==> status == status_of(ErrorKind::BoundaryMisuse) && final(chunk)@
            == old(chunk)@,
        !old(chunk)@.finalized && !is_html && !is_valid_utf8(content@) ==> status == status_of(
            ErrorKind::MalformedInput,
        ) && final(chunk)@ == old(chunk)@,
        !old(chunk)@.finalized && (is_html || is_valid_utf8(content@)) ==> status == STATUS_OK
            && final(chunk)@ == with_after(old(chunk)@, content@, is_html),
        status < 0 <==> (old(chunk)@.finalized || (!is_html && !is_valid_utf8(content@))),
{
    if chunk.finalized() {
        return error_status(ErrorKind::BoundaryMisuse);
    }
    if !is_html && !validate_utf8(content) {
        return error_status(ErrorKind::MalformedInput);
    }
    let content_type = if is_html {
        ContentType::Html
    } else {
        ContentType::Text
    };
    match chunk.after(content, content_type) {
        Ok(()) => STATUS_OK,
        Err(e) => error_status(e),
    }
}

/// Boundary mutation: suppress the original content and queue a replacement.
/// Status conventions as for `text_chunk_before`.
pub fn text_chunk_replace(chunk: &mut TextChunk, content: &[u8], is_html: bool) -> (status: i32)
    ensures
        old(chunk)@.finalized ==> status == status_of(ErrorKind::BoundaryMisuse) && final(chunk)@
            == old(chunk)@,
        !old(chunk)@.finalized && !is_html && !is_valid_utf8(content@) ==> status == status_of(
            ErrorKind::MalformedInput,
        ) && final(chunk)@ == old(chunk)@,
        !old(chunk)@.finalized && (is_html || is_valid_utf8(content@)) ==> status == STATUS_OK
            && final(chunk)@ == with_replace(old(chunk)@, content@, is_html),
        status < 0 <==> (old(chunk)@.finalized || (!is_html && !is_valid_utf8(content@))),
{
    if chunk.finalized() {
        return error_status(ErrorKind::BoundaryMisuse);
    }
    if !is_html && !validate_utf8(content) {
        return error_status(ErrorKind::MalformedInput);
    }
    let content_type = if is_html {
        ContentType::Html
    } else {
        ContentType::Text
    };
    match chunk.replace(content, content_type) {
        Ok(()) => STATUS_OK,
        Err(e) => error_status(e),
    }
}

/// Boundary mutation: suppress the original content. A finalized chunk is
/// left unchanged.
pub fn text_chunk_remove(chunk: &mut TextChunk)
    ensures
        old(chunk)@.finalized ==> final(chunk)@ == old(chunk)@,
        !old(chunk)@.finalized ==> final(chunk)@ == with_remove(old(chunk)@),
{
    chunk.remove()
}

/// Boundary read: observable removal state.
pub fn text_chunk_is_removed(chunk: &TextChunk) -> (r: bool)
    ensures
        r == chunk@.removed,
{
    chunk.removed()
}

} // verus!
