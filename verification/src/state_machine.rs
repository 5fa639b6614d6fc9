use vstd::prelude::*;

use crate::tag_name::{hash_updated, policy_of, TextParsingMode};
use crate::tree_builder_simulator::{cdata_allowed_for, stack_after_end_tag};

verus! {

/// The states of the tokenizing state machines. Both machines interpret the
/// same transition table; they differ only in the granularity of the output
/// they emit.
#[derive(Clone, Copy, PartialEq, Eq, Structural, Debug)]
pub enum State {
    Data,
    TagOpen,
    EndTagOpen,
    TagName,
    BeforeAttributeName,
    BeforeAttributeValue,
    AttributeValueQuoted,
    AttributeValueUnquoted,
    AfterAttributeValueQuoted,
    AttributeName,
    SelfClosingStartTag,
    MarkupDeclaration,
    CommentStartDash,
    Comment,
    CommentEndDash,
    CommentEnd,
    BogusComment,
    RawText,
    RawTextLessThan,
    RawTextEndTagOpen,
    RawTextEndTagName,
}

/// One tokenizer output. Text is reported byte by byte so that the output
/// stream is independent of how the input was chunked.
#[derive(Clone, Copy, PartialEq, Eq, Debug)]
pub enum Token {
    Character { byte: u8 },
    Comment,
    StartTag { name_hash: Option<u64>, self_closing: bool },
    EndTag { name_hash: Option<u64> },
}

/// The output granularity a machine produces: cheap tag previews, or fully
/// captured tokens.
#[derive(Clone, Copy, PartialEq, Eq, Structural, Debug)]
pub enum NextOutputType {
    TagPreview,
    TokenCapture,
}

/// Everything needed to resume tokenization after a mode switch: scan
/// position, whether CDATA-like content is allowed, the active text-parsing
/// mode, and the hash of the most recently opened start-tag name. Created at
/// the moment a machine yields and consumed exactly once by the machine that
/// resumes.
#[derive(Clone, Copy, PartialEq, Eq, Debug)]
pub struct StateMachineBookmark {
    pub allow_cdata: bool,
    pub text_parsing_mode: TextParsingMode,
    pub last_start_tag_name_hash: Option<u64>,
    pub pos: usize,
}

/// Why a per-chunk run of a state machine stopped.
#[derive(Clone, Copy, PartialEq, Eq, Debug)]
pub enum ParsingLoopTerminationReason {
    /// The chunk is exhausted; the driving loop must supply more input.
    NeedsMoreInput,
    /// The required output granularity changed; the other machine resumes
    /// from the bookmark.
    OutputTypeSwitch(StateMachineBookmark),
}

/// What the parsing loop does next after one dispatch step.
#[derive(Clone, Copy, PartialEq, Eq, Debug)]
pub enum ParsingLoopDirective {
    Continue,
    Break(ParsingLoopTerminationReason),
}

/// The selector/handler collaborator: it receives each completed tag preview
/// and answers with the output granularity it currently needs.
pub trait TagPreviewHandler {
    fn handle_tag_preview(&mut self, preview: &Token) -> NextOutputType;
}

/// The mathematical state of a tokenizing machine together with the shared
/// open-element stack. `pending` holds the bytes of the currently open tag
/// candidate, which may still have to be re-emitted as text if the candidate
/// is rejected.
#[verifier::ext_equal]
pub struct MachineModel {
    pub state: State,
    pub is_in_end_tag: bool,
    pub tag_name_hash: Option<u64>,
    pub last_start_tag_name_hash: Option<u64>,
    pub state_enter: bool,
    pub allow_cdata: bool,
    pub closing_quote: u8,
    pub text_parsing_mode: TextParsingMode,
    pub pending: Seq<u8>,
    pub open_stack: Seq<u64>,
}

/// HTML whitespace.
pub open spec fn is_space_byte(b: u8) -> bool {
    b == 32 || b == 9 || b == 10 || b == 12 || b == 13
}

/// ASCII letters, both cases.
pub open spec fn is_alpha_byte(b: u8) -> bool {
    (97 <= b && b <= 122) || (65 <= b && b <= 90)
}

pub open spec fn hash_or_zero(h: Option<u64>) -> u64 {
    match h {
        Some(v) => v,
        None => 0,
    }
}

/// Whether the end-tag name scanned so far matches the most recently opened
/// start tag (by name hash).
pub open spec fn tag_hash_matches(tag: Option<u64>, last: Option<u64>) -> bool {
    match tag {
        Some(h) => last == Some(h),
        None => false,
    }
}

/// The given bytes as character tokens.
pub open spec fn chars_of(s: Seq<u8>) -> Seq<Token> {
    s.map_values(|b: u8| Token::Character { byte: b })
}

pub open spec fn is_tag_token(t: Token) -> bool {
    match t {
        Token::StartTag { .. } => true,
        Token::EndTag { .. } => true,
        _ => false,
    }
}

/// The sub-sequence of tag tokens: what the preview machine reports.
pub open spec fn tags_only(s: Seq<Token>) -> Seq<Token>
    decreases s.len(),
{
    if s.len() == 0 {
        Seq::empty()
    } else {
        let rest = tags_only(s.subrange(1, s.len() as int));
        if is_tag_token(s[0]) {
            seq![s[0]] + rest
        } else {
            rest
        }
    }
}

/// What a machine of the given output granularity emits of the token stream.
pub open spec fn kept_outputs(t: NextOutputType, s: Seq<Token>) -> Seq<Token> {
    match t {
        NextOutputType::TokenCapture => s,
        NextOutputType::TagPreview => tags_only(s),
    }
}

/// The model state and output after the open tag candidate is rejected and
/// the byte is re-examined under the text state. `m` must already have its
/// tag bookkeeping cleared.
pub open spec fn reconsumed_in_text(m: MachineModel, b: u8, raw: bool) -> (MachineModel, Seq<
    Token,
>) {
    if b == 60 {
        (
            MachineModel {
                state: if raw {
                    State::RawTextLessThan
                } else {
                    State::TagOpen
                },
                state_enter: true,
                pending: seq![b],
                ..m
            },
            Seq::<Token>::empty(),
        )
    } else {
        (
            MachineModel {
                state: if raw {
                    State::RawText
                } else {
                    State::Data
                },
                state_enter: true,
                pending: Seq::empty(),
                ..m
            },
            seq![Token::Character { byte: b }],
        )
    }
}

/// The model after a start tag is completed: the tree-context simulator is
/// told about it, and the next text-parsing mode is taken from the policy of
/// the element that is now on top of the stack.
pub open spec fn completed_start_tag(m: MachineModel, self_closing: bool) -> (MachineModel, Seq<
    Token,
>) {
    let h = hash_or_zero(m.tag_name_hash);
    let stack2 = if self_closing {
        m.open_stack
    } else {
        m.open_stack.push(h)
    };
    let mode = if self_closing {
        TextParsingMode::Data
    } else {
        policy_of(h)
    };
    (
        MachineModel {
            state: if mode == TextParsingMode::Data {
                State::Data
            } else {
                State::RawText
            },
            is_in_end_tag: false,
            tag_name_hash: None,
            last_start_tag_name_hash: Some(h),
            state_enter: true,
            allow_cdata: cdata_allowed_for(stack2),
            text_parsing_mode: mode,
            pending: Seq::empty(),
            open_stack: stack2,
            ..m
        },
        seq![Token::StartTag { name_hash: Some(h), self_closing }],
    )
}

/// The model after an end tag is completed: the simulator pops through the
/// matching open element (a stray end tag is ignored) and tokenization
/// returns to plain data mode.
pub open spec fn completed_end_tag(m: MachineModel) -> (MachineModel, Seq<Token>) {
    let h = hash_or_zero(m.tag_name_hash);
    let stack2 = stack_after_end_tag(m.open_stack, h);
    (
        MachineModel {
            state: State::Data,
            is_in_end_tag: false,
            tag_name_hash: None,
            state_enter: true,
            allow_cdata: cdata_allowed_for(stack2),
            text_parsing_mode: TextParsingMode::Data,
            pending: Seq::empty(),
            open_stack: stack2,
            ..m
        },
        seq![Token::EndTag { name_hash: Some(h) }],
    )
}

pub open spec fn completed_tag(m: MachineModel, self_closing: bool) -> (MachineModel, Seq<Token>) {
    if m.is_in_end_tag {
        completed_end_tag(m)
    } else {
        completed_start_tag(m, self_closing)
    }
}

/// The model after a comment (or bogus comment) closes: comments produce a
/// marker token and never affect the tree context.
pub open spec fn closed_comment(m: MachineModel) -> (MachineModel, Seq<Token>) {
    (
        MachineModel {
            state: State::Data,
            is_in_end_tag: false,
            tag_name_hash: None,
            state_enter: true,
            pending: Seq::empty(),
            ..m
        },
        seq![Token::Comment],
    )
}

/// The model with its tag bookkeeping cleared, for re-examining a rejected
/// tag candidate as text.
pub open spec fn cleared_tag(m: MachineModel) -> MachineModel {
    MachineModel { is_in_end_tag: false, tag_name_hash: None, pending: Seq::empty(), ..m }
}

/// One transition of the shared table: the machine consumes exactly one
/// byte and emits zero or more tokens.
pub open spec fn step(m: MachineModel, b: u8) -> (MachineModel, Seq<Token>) {
    match m.state {
        State::Data => if b == 60 {
            (
                MachineModel {
                    state: State::TagOpen,
                    is_in_end_tag: false,
                    tag_name_hash: None,
                    state_enter: true,
                    pending: seq![b],
                    ..m
                },
                Seq::<Token>::empty(),
            )
        } else {
            (
                MachineModel { state_enter: false, ..m },
                seq![Token::Character { byte: b }],
            )
        },
        State::TagOpen => if is_alpha_byte(b) {
            (
                MachineModel {
                    state: State::TagName,
                    is_in_end_tag: false,
                    tag_name_hash: Some(hash_updated(0, b)),
                    state_enter: true,
                    pending: m.pending.push(b),
                    ..m
                },
                Seq::<Token>::empty(),
            )
        } else if b == 47 {
            (
                MachineModel { state: State::EndTagOpen, state_enter: true, pending: m.pending.push(b), ..m },
                Seq::<Token>::empty(),
            )
        } else if b == 33 {
            (
                MachineModel { state: State::MarkupDeclaration, state_enter: true, pending: m.pending.push(b), ..m },
                Seq::<Token>::empty(),
            )
        } else {
            let flushed = chars_of(m.pending);
            let r = reconsumed_in_text(cleared_tag(m), b, false);
            (r.0, flushed + r.1)
        },
        State::EndTagOpen => if is_alpha_byte(b) {
            (
                MachineModel {
                    state: State::TagName,
                    is_in_end_tag: true,
                    tag_name_hash: Some(hash_updated(0, b)),
                    state_enter: true,
                    pending: m.pending.push(b),
                    ..m
                },
                Seq::<Token>::empty(),
            )
        } else if b == 62 {
            (
                MachineModel {
                    state: State::Data,
                    is_in_end_tag: false,
                    tag_name_hash: None,
                    state_enter: true,
                    pending: Seq::empty(),
                    ..m
                },
                Seq::<Token>::empty(),
            )
        } else {
            (
                MachineModel { state: State::BogusComment, state_enter: true, pending: m.pending.push(b), ..m },
                Seq::<Token>::empty(),
            )
        },
        State::TagName => if is_space_byte(b) {
            (
                MachineModel { state: State::BeforeAttributeName, state_enter: true, pending: m.pending.push(b), ..m },
                Seq::<Token>::empty(),
            )
        } else if b == 47 {
            (
                MachineModel { state: State::SelfClosingStartTag, state_enter: true, pending: m.pending.push(b), ..m },
                Seq::<Token>::empty(),
            )
        } else if b == 62 {
            completed_tag(m, false)
        } else {
            (
                MachineModel {
                    tag_name_hash: Some(hash_updated(hash_or_zero(m.tag_name_hash), b)),
                    state_enter: false,
                    pending: m.pending.push(b),
                    ..m
                },
                Seq::<Token>::empty(),
            )
        },
        State::BeforeAttributeName => if is_space_byte(b) {
            (
                MachineModel { state_enter: false, pending: m.pending.push(b), ..m },
                Seq::<Token>::empty(),
            )
        } else if b == 47 {
            (
                MachineModel { state: State::SelfClosingStartTag, state_enter: true, pending: m.pending.push(b), ..m },
                Seq::<Token>::empty(),
            )
        } else if b == 62 {
            completed_tag(m, false)
        } else if b == 61 {
            (
                MachineModel { state: State::BeforeAttributeValue, state_enter: true, pending: m.pending.push(b), ..m },
                Seq::<Token>::empty(),
            )
        } else {
            (
                MachineModel { state: State::AttributeName, state_enter: true, pending: m.pending.push(b), ..m },
                Seq::<Token>::empty(),
            )
        },
        State::AttributeName => if is_space_byte(b) {
            (
                MachineModel { state: State::BeforeAttributeName, state_enter: true, pending: m.pending.push(b), ..m },
                Seq::<Token>::empty(),
            )
        } else if b == 61 {
            (
                MachineModel { state: State::BeforeAttributeValue, state_enter: true, pending: m.pending.push(b), ..m },
                Seq::<Token>::empty(),
            )
        } else if b == 47 {
            (
                MachineModel { state: State::SelfClosingStartTag, state_enter: true, pending: m.pending.push(b), ..m },
                Seq::<Token>::empty(),
            )
        } else if b == 62 {
            completed_tag(m, false)
        } else {
            (
                MachineModel { state_enter: false, pending: m.pending.push(b), ..m },
                Seq::<Token>::empty(),
            )
        },
        State::BeforeAttributeValue => if is_space_byte(b) {
            (
                MachineModel { state_enter: false, pending: m.pending.push(b), ..m },
                Seq::<Token>::empty(),
            )
        } else if b == 34 || b == 39 {
            (
                MachineModel {
                    state: State::AttributeValueQuoted,
                    closing_quote: b,
                    state_enter: true,
                    pending: m.pending.push(b),
                    ..m
                },
                Seq::<Token>::empty(),
            )
        } else if b == 62 {
            completed_tag(m, false)
        } else {
            (
                MachineModel { state: State::AttributeValueUnquoted, state_enter: true, pending: m.pending.push(b), ..m },
                Seq::<Token>::empty(),
            )
        },
        State::AttributeValueQuoted => if b == m.closing_quote {
            (
                MachineModel { state: State::AfterAttributeValueQuoted, state_enter: true, pending: m.pending.push(b), ..m },
                Seq::<Token>::empty(),
            )
        } else {
            (
                MachineModel { state_enter: false, pending: m.pending.push(b), ..m },
                Seq::<Token>::empty(),
            )
        },
        State::AttributeValueUnquoted => if is_space_byte(b) {
            (
                MachineModel { state: State::BeforeAttributeName, state_enter: true, pending: m.pending.push(b), ..m },
                Seq::<Token>::empty(),
            )
        } else if b == 62 {
            completed_tag(m, false)
        } else {
            (
                MachineModel { state_enter: false, pending: m.pending.push(b), ..m },
                Seq::<Token>::empty(),
            )
        },
        State::AfterAttributeValueQuoted => if is_space_byte(b) {
            (
                MachineModel { state: State::BeforeAttributeName, state_enter: true, pending: m.pending.push(b), ..m },
                Seq::<Token>::empty(),
            )
        } else if b == 47 {
            (
                MachineModel { state: State::SelfClosingStartTag, state_enter: true, pending: m.pending.push(b), ..m },
                Seq::<Token>::empty(),
            )
        } else if b == 62 {
            completed_tag(m, false)
        } else {
            (
                MachineModel { state: State::AttributeName, state_enter: true, pending: m.pending.push(b), ..m },
                Seq::<Token>::empty(),
            )
        },
        State::SelfClosingStartTag => if b == 62 {
            completed_tag(m, true)
        } else if is_space_byte(b) {
            (
                MachineModel { state: State::BeforeAttributeName, state_enter: true, pending: m.pending.push(b), ..m },
                Seq::<Token>::empty(),
            )
        } else if b == 47 {
            (
                MachineModel { state_enter: false, pending: m.pending.push(b), ..m },
                Seq::<Token>::empty(),
            )
        } else if b == 61 {
            (
                MachineModel { state: State::BeforeAttributeValue, state_enter: true, pending: m.pending.push(b), ..m },
                Seq::<Token>::empty(),
            )
        } else {
            (
                MachineModel { state: State::AttributeName, state_enter: true, pending: m.pending.push(b), ..m },
                Seq::<Token>::empty(),
            )
        },
        State::MarkupDeclaration => if b == 45 {
            (
                MachineModel { state: State::CommentStartDash, state_enter: true, pending: m.pending.push(b), ..m },
                Seq::<Token>::empty(),
            )
        } else if b == 62 {
            closed_comment(m)
        } else {
            (
                MachineModel { state: State::BogusComment, state_enter: true, pending: m.pending.push(b), ..m },
                Seq::<Token>::empty(),
            )
        },
        State::CommentStartDash => if b == 45 {
            (
                MachineModel { state: State::Comment, state_enter: true, pending: m.pending.push(b), ..m },
                Seq::<Token>::empty(),
            )
        } else if b == 62 {
            closed_comment(m)
        } else {
            (
                MachineModel { state: State::BogusComment, state_enter: true, pending: m.pending.push(b), ..m },
                Seq::<Token>::empty(),
            )
        },
        State::Comment => if b == 45 {
            (
                MachineModel { state: State::CommentEndDash, state_enter: true, pending: m.pending.push(b), ..m },
                Seq::<Token>::empty(),
            )
        } else {
            (
                MachineModel { state_enter: false, pending: m.pending.push(b), ..m },
                Seq::<Token>::empty(),
            )
        },
        State::CommentEndDash => if b == 45 {
            (
                MachineModel { state: State::CommentEnd, state_enter: true, pending: m.pending.push(b), ..m },
                Seq::<Token>::empty(),
            )
        } else {
            (
                MachineModel { state: State::Comment, state_enter: true, pending: m.pending.push(b), ..m },
                Seq::<Token>::empty(),
            )
        },
        State::CommentEnd => if b == 62 {
            closed_comment(m)
        } else if b == 45 {
            (
                MachineModel { state_enter: false, pending: m.pending.push(b), ..m },
                Seq::<Token>::empty(),
            )
        } else {
            (
                MachineModel { state: State::Comment, state_enter: true, pending: m.pending.push(b), ..m },
                Seq::<Token>::empty(),
            )
        },
        State::BogusComment => if b == 62 {
            closed_comment(m)
        } else {
            (
                MachineModel { state_enter: false, pending: m.pending.push(b), ..m },
                Seq::<Token>::empty(),
            )
        },
        State::RawText => if b == 60 {
            (
                MachineModel {
                    state: State::RawTextLessThan,
                    is_in_end_tag: false,
                    tag_name_hash: None,
                    state_enter: true,
                    pending: seq![b],
                    ..m
                },
                Seq::<Token>::empty(),
            )
        } else {
            (
                MachineModel { state_enter: false, ..m },
                seq![Token::Character { byte: b }],
            )
        },
        State::RawTextLessThan => if b == 47 {
            (
                MachineModel { state: State::RawTextEndTagOpen, state_enter: true, pending: m.pending.push(b), ..m },
                Seq::<Token>::empty(),
            )
        } else {
            let flushed = chars_of(m.pending);
            let r = reconsumed_in_text(cleared_tag(m), b, true);
            (r.0, flushed + r.1)
        },
        State::RawTextEndTagOpen => if is_alpha_byte(b) {
            (
                MachineModel {
                    state: State::RawTextEndTagName,
                    is_in_end_tag: true,
                    tag_name_hash: Some(hash_updated(0, b)),
                    state_enter: true,
                    pending: m.pending.push(b),
                    ..m
                },
                Seq::<Token>::empty(),
            )
        } else {
            let flushed = chars_of(m.pending);
            let r = reconsumed_in_text(cleared_tag(m), b, true);
            (r.0, flushed + r.1)
        },
        State::RawTextEndTagName => if is_alpha_byte(b) {
            (
                MachineModel {
                    tag_name_hash: Some(hash_updated(hash_or_zero(m.tag_name_hash), b)),
                    state_enter: false,
                    pending: m.pending.push(b),
                    ..m
                },
                Seq::<Token>::empty(),
            )
        } else if b == 62 && tag_hash_matches(m.tag_name_hash, m.last_start_tag_name_hash) {
            completed_tag(m, false)
        } else if is_space_byte(b) && tag_hash_matches(m.tag_name_hash, m.last_start_tag_name_hash) {
            (
                MachineModel { state: State::BeforeAttributeName, state_enter: true, pending: m.pending.push(b), ..m },
                Seq::<Token>::empty(),
            )
        } else if b == 47 && tag_hash_matches(m.tag_name_hash, m.last_start_tag_name_hash) {
            (
                MachineModel { state: State::SelfClosingStartTag, state_enter: true, pending: m.pending.push(b), ..m },
                Seq::<Token>::empty(),
            )
        } else {
            let flushed = chars_of(m.pending);
            let r = reconsumed_in_text(cleared_tag(m), b, true);
            (r.0, flushed + r.1)
        },
    }
}

/// The machine run over a whole byte sequence: the final model state and the
/// concatenation of everything emitted, in order.
pub open spec fn scan(m: MachineModel, input: Seq<u8>) -> (MachineModel, Seq<Token>)
    decreases input.len(),
{
    if input.len() == 0 {
        (m, Seq::<Token>::empty())
    } else {
        let first = step(m, input[0]);
        let rest = scan(first.0, input.subrange(1, input.len() as int));
        (rest.0, first.1 + rest.1)
    }
}

/// Law: tokenization is invariant under chunking. Scanning the
/// concatenation of two byte sequences reaches the same state as scanning
/// them one after the other, and emits the concatenation of their outputs —
/// so any way of splitting a stream into chunks yields identical output.
pub proof fn lemma_chunking_invariance(m: MachineModel, a: Seq<u8>, b: Seq<u8>)
    ensures
        scan(m, a + b).0 == scan(scan(m, a).0, b).0,
        scan(m, a + b).1 == scan(m, a).1 + scan(scan(m, a).0, b).1,
    decreases a.len(),
{
    if a.len() == 0 {
        assert(a + b =~= b);
        assert(scan(m, a).1 + scan(scan(m, a).0, b).1 =~= scan(m, b).1);
    } else {
        let first = step(m, a[0]);
        let a2 = a.subrange(1, a.len() as int);
        assert((a + b)[0] == a[0]);
        assert((a + b).subrange(1, (a + b).len() as int) =~= a2 + b);
        lemma_chunking_invariance(first.0, a2, b);
        assert(scan(m, a + b).1 =~= scan(m, a).1 + scan(scan(m, a).0, b).1);
    }
}

/// Scanning one more byte steps the state once and appends that step's
/// output.
pub proof fn lemma_scan_snoc(m: MachineModel, s: Seq<u8>, b: u8)
    ensures
        scan(m, s.push(b)).0 == step(scan(m, s).0, b).0,
        scan(m, s.push(b)).1 == scan(m, s).1 + step(scan(m, s).0, b).1,
{
    reveal_with_fuel(scan, 3);
    let single = seq![b];
    assert(s.push(b) =~= s + single);
    lemma_chunking_invariance(m, s, single);
    let mid = scan(m, s).0;
    let first = step(mid, b);
    assert(single[0] == b);
    assert(single.subrange(1, 1) =~= Seq::<u8>::empty());
    assert(scan(first.0, single.subrange(1, 1)) == (first.0, Seq::<Token>::empty()));
    assert(scan(mid, single).0 == first.0);
    assert(scan(mid, single).1 =~= first.1);
}

/// Character tokens are never tag tokens.
pub proof fn lemma_tags_only_chars(s: Seq<u8>)
    ensures
        tags_only(chars_of(s)) == Seq::<Token>::empty(),
    decreases s.len(),
{
    if s.len() == 0 {
        assert(chars_of(s).len() == 0);
    } else {
        let cs = chars_of(s);
        assert(cs[0] == (Token::Character { byte: s[0] }));
        assert(cs.subrange(1, cs.len() as int) =~= chars_of(s.subrange(1, s.len() as int)));
        lemma_tags_only_chars(s.subrange(1, s.len() as int));
    }
}

/// Selecting tag tokens distributes over concatenation.
pub proof fn lemma_tags_only_concat(a: Seq<Token>, b: Seq<Token>)
    ensures
        tags_only(a + b) == tags_only(a) + tags_only(b),
    decreases a.len(),
{
    if a.len() == 0 {
        assert(a + b =~= b);
        assert(tags_only(a) + tags_only(b) =~= tags_only(b));
    } else {
        let a2 = a.subrange(1, a.len() as int);
        assert((a + b)[0] == a[0]);
        assert((a + b).subrange(1, (a + b).len() as int) =~= a2 + b);
        lemma_tags_only_concat(a2, b);
        if is_tag_token(a[0]) {
            assert(tags_only(a + b) =~= tags_only(a) + tags_only(b));
        } else {
            assert(tags_only(a + b) =~= tags_only(a) + tags_only(b));
        }
    }
}

/// Selecting tag tokens from a single token.
pub proof fn lemma_tags_only_single(t: Token)
    ensures
        is_tag_token(t) ==> tags_only(seq![t]) == seq![t],
        !is_tag_token(t) ==> tags_only(seq![t]) == Seq::<Token>::empty(),
{
    reveal_with_fuel(tags_only, 3);
    let s = seq![t];
    assert(s[0] == t);
    assert(s.subrange(1, 1) =~= Seq::<Token>::empty());
    assert(tags_only(s.subrange(1, 1)) == Seq::<Token>::empty());
    if is_tag_token(t) {
        assert(tags_only(s) =~= seq![t] + Seq::<Token>::empty());
        assert(seq![t] + Seq::<Token>::empty() =~= seq![t]);
    }
}

} // verus!
