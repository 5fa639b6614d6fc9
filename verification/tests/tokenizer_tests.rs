use cool_thing::driver::TokenizerDriver;
use cool_thing::eager::EagerStateMachine;
use cool_thing::full::FullStateMachine;
use cool_thing::state_machine::{NextOutputType, ParsingLoopTerminationReason, Token,
    TagPreviewHandler};
use cool_thing::tag_name::tag_name_hash_of;
use cool_thing::tree_builder_simulator::TreeBuilderSimulator;

fn tokenize(input: &[u8]) -> Vec<Token> {
    let mut driver = TokenizerDriver::new();
    driver.write(input);
    driver.end();
    driver.tokens.clone()
}

fn text_of(tokens: &[Token]) -> Vec<u8> {
    let mut out = Vec::new();
    for t in tokens {
        if let Token::Character { byte } = t {
            out.push(*byte);
        }
    }
    out
}

fn tag_tokens(tokens: &[Token]) -> Vec<Token> {
    tokens
        .iter()
        .filter(|t| matches!(t, Token::StartTag { .. } | Token::EndTag { .. }))
        .cloned()
        .collect()
}

#[test]
fn plain_tags_and_text() {
    let tokens = tokenize(b"<div class=\"a\">hi</div>");
    let div = tag_name_hash_of(b"div");
    assert_eq!(
        tag_tokens(&tokens),
        vec![
            Token::StartTag { name_hash: Some(div), self_closing: false },
            Token::EndTag { name_hash: Some(div) },
        ]
    );
    assert_eq!(text_of(&tokens), b"hi".to_vec());
}

#[test]
fn chunking_invariance() {
    let stream = b"<div class=\"a\">hi</div>";
    let whole = tokenize(stream);
    for split in 0..=stream.len() {
        let mut driver = TokenizerDriver::new();
        driver.write(&stream[..split]);
        driver.write(&stream[split..]);
        driver.end();
        assert_eq!(driver.tokens, whole, "split at {split}");
    }
}

#[test]
fn chunking_invariance_byte_by_byte() {
    let stream = b"a<script>b\"</div>\"</script><!--c--><p x='<'>d";
    let whole = tokenize(stream);
    let mut driver = TokenizerDriver::new();
    for b in stream.iter() {
        driver.write(std::slice::from_ref(b));
    }
    driver.end();
    assert_eq!(driver.tokens, whole);
}

#[test]
fn raw_text_suppression() {
    let tokens = tokenize(b"<script>var x = \"</div>\";</script>");
    let script = tag_name_hash_of(b"script");
    let div = tag_name_hash_of(b"div");
    assert_eq!(
        tag_tokens(&tokens),
        vec![
            Token::StartTag { name_hash: Some(script), self_closing: false },
            Token::EndTag { name_hash: Some(script) },
        ]
    );
    assert!(!tokens.contains(&Token::EndTag { name_hash: Some(div) }));
    assert_eq!(text_of(&tokens), b"var x = \"</div>\";".to_vec());
}

#[test]
fn rcdata_title_suppresses_markup() {
    let tokens = tokenize(b"<title>a<b></title>x");
    let title = tag_name_hash_of(b"title");
    assert_eq!(
        tag_tokens(&tokens),
        vec![
            Token::StartTag { name_hash: Some(title), self_closing: false },
            Token::EndTag { name_hash: Some(title) },
        ]
    );
    assert_eq!(text_of(&tokens), b"a<b>x".to_vec());
}

#[test]
fn quoted_attribute_hides_gt() {
    let tokens = tokenize(b"<div class=\"a>b\">x</div>");
    let div = tag_name_hash_of(b"div");
    assert_eq!(
        tag_tokens(&tokens),
        vec![
            Token::StartTag { name_hash: Some(div), self_closing: false },
            Token::EndTag { name_hash: Some(div) },
        ]
    );
    assert_eq!(text_of(&tokens), b"x".to_vec());
}

#[test]
fn comment_hides_markup() {
    let tokens = tokenize(b"a<!-- <div> -->b");
    assert_eq!(
        tokens,
        vec![
            Token::Character { byte: b'a' },
            Token::Comment,
            Token::Character { byte: b'b' },
        ]
    );
}

#[test]
fn self_closing_tag_is_reported() {
    let tokens = tokenize(b"<br/>");
    let br = tag_name_hash_of(b"br");
    assert_eq!(tokens, vec![Token::StartTag { name_hash: Some(br), self_closing: true }]);
}

#[test]
fn stray_lt_is_text() {
    let tokens = tokenize(b"a < b");
    assert_eq!(text_of(&tokens), b"a < b".to_vec());
    assert!(tag_tokens(&tokens).is_empty());
}

#[test]
fn tag_names_fold_case() {
    let lower = tokenize(b"<DIV>x</div>");
    let div = tag_name_hash_of(b"div");
    assert_eq!(
        tag_tokens(&lower),
        vec![
            Token::StartTag { name_hash: Some(div), self_closing: false },
            Token::EndTag { name_hash: Some(div) },
        ]
    );
    assert_eq!(tag_name_hash_of(b"SCRIPT"), tag_name_hash_of(b"script"));
}

struct StayInPreview;

impl TagPreviewHandler for StayInPreview {
    fn handle_tag_preview(&mut self, _preview: &Token) -> NextOutputType {
        NextOutputType::TagPreview
    }
}

struct SwitchOnFirstTag;

impl TagPreviewHandler for SwitchOnFirstTag {
    fn handle_tag_preview(&mut self, _preview: &Token) -> NextOutputType {
        NextOutputType::TokenCapture
    }
}

struct StayInCapture;

impl TagPreviewHandler for StayInCapture {
    fn handle_tag_preview(&mut self, _preview: &Token) -> NextOutputType {
        NextOutputType::TokenCapture
    }
}

#[test]
fn eager_machine_reports_previews_only() {
    let mut machine = EagerStateMachine::new(StayInPreview);
    let mut sim = TreeBuilderSimulator::new();
    let mut previews = Vec::new();
    let input = b"<p>hello</p>";
    let reason = machine.run(input, &mut sim, &mut previews);
    assert!(matches!(reason, ParsingLoopTerminationReason::NeedsMoreInput));
    let p = tag_name_hash_of(b"p");
    assert_eq!(
        previews,
        vec![
            Token::StartTag { name_hash: Some(p), self_closing: false },
            Token::EndTag { name_hash: Some(p) },
        ]
    );
}

#[test]
fn output_type_switch_hands_off_through_bookmark() {
    let input = b"<p>hello</p>";
    let mut eager = EagerStateMachine::new(SwitchOnFirstTag);
    let mut sim = TreeBuilderSimulator::new();
    let mut previews = Vec::new();
    let reason = eager.run(input, &mut sim, &mut previews);
    let bookmark = match reason {
        ParsingLoopTerminationReason::OutputTypeSwitch(bm) => bm,
        other => panic!("expected a switch, got {other:?}"),
    };
    // the preview machine stopped right after the completed start tag
    assert_eq!(bookmark.pos, 3);
    assert_eq!(previews.len(), 1);

    // the full machine resumes from the bookmark with identical semantics
    let mut full = FullStateMachine::new(StayInCapture);
    full.continue_from_bookmark(&bookmark);
    let mut tokens = Vec::new();
    let reason = full.run(input, &mut sim, &mut tokens);
    assert!(matches!(reason, ParsingLoopTerminationReason::NeedsMoreInput));
    let p = tag_name_hash_of(b"p");
    assert_eq!(text_of(&tokens), b"hello".to_vec());
    assert_eq!(tag_tokens(&tokens), vec![Token::EndTag { name_hash: Some(p) }]);
}

#[test]
fn blocked_bytes_are_reported_and_rebased() {
    let input = b"ab<div cl";
    let mut machine = FullStateMachine::new(StayInCapture);
    let mut sim = TreeBuilderSimulator::new();
    let mut tokens = Vec::new();
    let reason = machine.run(input, &mut sim, &mut tokens);
    assert!(matches!(reason, ParsingLoopTerminationReason::NeedsMoreInput));
    // the open tag began at offset 2, so 7 trailing bytes are blocked
    assert_eq!(machine.get_blocked_byte_count(input), 7);
    machine.adjust_for_next_input();
    // retained tail plus the next chunk finish the tag
    let next = b"<div class=\"a\">x";
    let reason = machine.run(next, &mut sim, &mut tokens);
    assert!(matches!(reason, ParsingLoopTerminationReason::NeedsMoreInput));
    let div = tag_name_hash_of(b"div");
    assert_eq!(
        tag_tokens(&tokens),
        vec![Token::StartTag { name_hash: Some(div), self_closing: false }]
    );
    assert_eq!(text_of(&tokens), b"abx".to_vec());
}

#[test]
fn doctype_is_treated_as_bogus_comment() {
    let tokens = tokenize(b"<!doctype html>x");
    assert_eq!(tokens, vec![Token::Comment, Token::Character { byte: b'x' }]);
}

#[test]
fn empty_end_tag_is_dropped() {
    let tokens = tokenize(b"a</>b");
    assert_eq!(
        tokens,
        vec![Token::Character { byte: b'a' }, Token::Character { byte: b'b' }]
    );
}

#[test]
fn rejected_tag_open_is_text() {
    let tokens = tokenize(b"<3");
    assert_eq!(text_of(&tokens), b"<3".to_vec());
    assert!(tag_tokens(&tokens).is_empty());
}

#[test]
fn unterminated_tag_produces_no_token() {
    let mut driver = TokenizerDriver::new();
    driver.write(b"ab<div");
    driver.end();
    assert_eq!(text_of(&driver.tokens), b"ab".to_vec());
    assert!(tag_tokens(&driver.tokens).is_empty());
}

#[test]
fn empty_chunks_change_nothing() {
    let mut driver = TokenizerDriver::new();
    driver.write(b"");
    driver.write(b"<p>x");
    driver.write(b"");
    driver.write(b"</p>");
    driver.end();
    assert_eq!(driver.tokens, tokenize(b"<p>x</p>"));
}

#[test]
fn adjust_is_a_no_op_without_an_open_tag() {
    let mut machine = FullStateMachine::new(StayInCapture);
    let mut sim = TreeBuilderSimulator::new();
    let mut tokens = Vec::new();
    let input = b"ab";
    let reason = machine.run(input, &mut sim, &mut tokens);
    assert!(matches!(reason, ParsingLoopTerminationReason::NeedsMoreInput));
    let cursor_before = machine.core.input_cursor.pos;
    machine.adjust_for_next_input();
    assert_eq!(machine.core.input_cursor.pos, cursor_before);
}
