use cool_thing::text_chunk::{escape_text_content, ContentType, TextChunk};

#[test]
fn insertion_ordering() {
    let mut chunk = TextChunk::new(b"X".to_vec(), false);
    chunk.before(b"A", ContentType::Html).unwrap();
    chunk.before(b"B", ContentType::Html).unwrap();
    chunk.after(b"C", ContentType::Html).unwrap();
    chunk.after(b"D", ContentType::Html).unwrap();
    let out = chunk.flush();
    assert_eq!(out, b"ABXCD".to_vec());
}

#[test]
fn insertion_ordering_with_remove() {
    let mut chunk = TextChunk::new(b"X".to_vec(), false);
    chunk.before(b"A", ContentType::Html).unwrap();
    chunk.before(b"B", ContentType::Html).unwrap();
    chunk.after(b"C", ContentType::Html).unwrap();
    chunk.after(b"D", ContentType::Html).unwrap();
    chunk.remove();
    let out = chunk.flush();
    assert_eq!(out, b"ABCD".to_vec());
}

#[test]
fn remove_order_is_irrelevant() {
    let mut chunk = TextChunk::new(b"X".to_vec(), false);
    chunk.remove();
    chunk.before(b"A", ContentType::Html).unwrap();
    chunk.before(b"B", ContentType::Html).unwrap();
    chunk.after(b"C", ContentType::Html).unwrap();
    chunk.after(b"D", ContentType::Html).unwrap();
    let out = chunk.flush();
    assert_eq!(out, b"ABCD".to_vec());
}

#[test]
fn replace_composition() {
    let mut chunk = TextChunk::new(b"original".to_vec(), false);
    chunk.replace(b"P", ContentType::Html).unwrap();
    chunk.replace(b"Q", ContentType::Html).unwrap();
    assert!(chunk.removed());
    let out = chunk.flush();
    assert_eq!(out, b"PQ".to_vec());
}

#[test]
fn replace_keeps_earlier_insertions() {
    let mut chunk = TextChunk::new(b"X".to_vec(), false);
    chunk.before(b"A", ContentType::Html).unwrap();
    chunk.after(b"C", ContentType::Html).unwrap();
    chunk.replace(b"P", ContentType::Html).unwrap();
    let out = chunk.flush();
    assert_eq!(out, b"ACP".to_vec());
}

#[test]
fn escaping_round_trip_text() {
    let mut chunk = TextChunk::new(Vec::new(), false);
    chunk.before(b"<script>", ContentType::Text).unwrap();
    let out = chunk.flush();
    assert_eq!(out, b"&lt;script&gt;".to_vec());
}

#[test]
fn escaping_round_trip_html() {
    let mut chunk = TextChunk::new(Vec::new(), false);
    chunk.before(b"<script>", ContentType::Html).unwrap();
    let out = chunk.flush();
    assert_eq!(out, b"<script>".to_vec());
}

#[test]
fn escape_covers_all_three_bytes() {
    let out = escape_text_content(b"a&b<c>d");
    assert_eq!(out, b"a&amp;b&lt;c&gt;d".to_vec());
}

#[test]
fn escape_leaves_plain_text_alone() {
    let out = escape_text_content(b"plain text 123");
    assert_eq!(out, b"plain text 123".to_vec());
}

#[test]
fn remove_suppresses_only_original_content() {
    let mut chunk = TextChunk::new(b"gone".to_vec(), true);
    chunk.after(b"stays", ContentType::Html).unwrap();
    chunk.remove();
    assert!(chunk.removed());
    assert!(chunk.last_in_text_node());
    let out = chunk.flush();
    assert_eq!(out, b"stays".to_vec());
}

#[test]
fn as_bytes_exposes_original_content() {
    let chunk = TextChunk::new(b"hello".to_vec(), false);
    assert_eq!(chunk.as_bytes(), b"hello");
    assert!(!chunk.last_in_text_node());
    assert!(!chunk.removed());
    assert!(!chunk.finalized());
}
