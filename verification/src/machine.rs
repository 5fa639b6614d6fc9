use vstd::prelude::*;

use crate::cursor::Cursor;
use crate::state_machine::{chars_of, completed_tag, is_alpha_byte, is_space_byte, is_tag_token,
    kept_outputs,
    lemma_scan_snoc, lemma_tags_only_chars, lemma_tags_only_concat, lemma_tags_only_single, scan, tags_only,
    step, MachineModel, NextOutputType, ParsingLoopTerminationReason, State, StateMachineBookmark,
    TagPreviewHandler, Token};
use crate::tag_name::{policy_for, update_hash, TextParsingMode};
use crate::tree_builder_simulator::TreeBuilderSimulator;

verus! {

/// HTML whitespace.
pub fn is_space(b: u8) -> (r: bool)
    ensures
        r == is_space_byte(b),
{
    b == 32 || b == 9 || b == 10 || b == 12 || b == 13
}

/// ASCII letters, both cases.
pub fn is_alpha(b: u8) -> (r: bool)
    ensures
        r == is_alpha_byte(b),
{
    (97 <= b && b <= 122) || (65 <= b && b <= 90)
}

/// The bookmark that resumes tokenization at `pos` from the given model
/// state.
pub open spec fn bookmark_of(m: MachineModel, pos: usize) -> StateMachineBookmark {
    StateMachineBookmark {
        allow_cdata: m.allow_cdata,
        text_parsing_mode: m.text_parsing_mode,
        last_start_tag_name_hash: m.last_start_tag_name_hash,
        pos,
    }
}

/// The shared interpreter of the transition table. The preview and full
/// machines wrap it with different output granularities.
///
/// Offsets (`input_cursor`, `tag_start`, `tag_name_start`) always reference
/// the current input chunk; `tag_start` is set while a tag candidate is open,
/// so its bytes can be retained across a chunk boundary or re-emitted as text
/// if the candidate is rejected.
pub struct StateMachineCore {
    pub input_cursor: Cursor,
    pub tag_start: Option<usize>,
    pub tag_name_start: usize,
    pub is_in_end_tag: bool,
    pub tag_name_hash: Option<u64>,
    pub last_start_tag_name_hash: Option<u64>,
    pub state_enter: bool,
    pub allow_cdata: bool,
    pub state: State,
    pub closing_quote: u8,
    pub text_parsing_mode: TextParsingMode,
}

/// The state a machine starts in: plain data mode at the beginning of the
/// stream.
pub open spec fn initial_core() -> StateMachineCore {
    StateMachineCore {
        input_cursor: Cursor { pos: 0 },
        tag_start: None,
        tag_name_start: 0,
        is_in_end_tag: false,
        tag_name_hash: None,
        last_start_tag_name_hash: None,
        state_enter: true,
        allow_cdata: false,
        state: State::Data,
        closing_quote: 34,
        text_parsing_mode: TextParsingMode::Data,
    }
}

impl StateMachineCore {
    /// The bytes of the currently open tag candidate within this chunk.
    pub open spec fn pending_of(&self, input: Seq<u8>) -> Seq<u8> {
        match self.tag_start {
            Some(ts) => input.subrange(ts as int, self.input_cursor.pos as int),
            None => Seq::empty(),
        }
    }

    /// The machine's offsets reference the current chunk, and a tag
    /// candidate is open exactly in the states that scan one.
    pub open spec fn wf(&self, input_len: int) -> bool {
        &&& self.input_cursor.pos <= input_len
        &&& self.tag_name_start <= self.input_cursor.pos
        &&& match self.tag_start {
            Some(ts) => ts <= self.tag_name_start && self.state != State::Data && self.state
                != State::RawText,
            None => self.state == State::Data || self.state == State::RawText,
        }
    }

    /// The mathematical state this machine is in, over the current chunk and
    /// the shared open-element stack.
    pub open spec fn model(&self, input: Seq<u8>, stack: Seq<u64>) -> MachineModel {
        MachineModel {
            state: self.state,
            is_in_end_tag: self.is_in_end_tag,
            tag_name_hash: self.tag_name_hash,
            last_start_tag_name_hash: self.last_start_tag_name_hash,
            state_enter: self.state_enter,
            allow_cdata: self.allow_cdata,
            closing_quote: self.closing_quote,
            text_parsing_mode: self.text_parsing_mode,
            pending: self.pending_of(input),
            open_stack: stack,
        }
    }

    /// A machine in the initial state.
    pub fn new() -> (r: StateMachineCore)
        ensures
            r == initial_core(),
    {
        StateMachineCore {
            input_cursor: Cursor::new(),
            tag_start: None,
            tag_name_start: 0,
            is_in_end_tag: false,
            tag_name_hash: None,
            last_start_tag_name_hash: None,
            state_enter: true,
            allow_cdata: false,
            state: State::Data,
            closing_quote: 34,
            text_parsing_mode: TextParsingMode::Data,
        }
    }

    fn emit_pending_chars(tokens: &mut Vec<Token>, input: &[u8], from: usize, to: usize)
        requires
            from <= to <= input@.len(),
        ensures
            final(tokens)@ == old(tokens)@ + chars_of(input@.subrange(from as int, to as int)),
    {
        let mut j: usize = from;
        proof {
            assert(chars_of(input@.subrange(from as int, from as int)) =~= Seq::<Token>::empty());
            assert(tokens@ =~= old(tokens)@ + chars_of(input@.subrange(from as int, from as int)));
        }
        while j < to
            invariant
                from <= j <= to <= input@.len(),
                tokens@ == old(tokens)@ + chars_of(input@.subrange(from as int, j as int)),
            decreases to - j,
        {
            tokens.push(Token::Character { byte: input[j] });
            proof {
                let pre = input@.subrange(from as int, j as int);
                assert(input@.subrange(from as int, (j + 1) as int) =~= pre.push(input@[j as int]));
                assert(chars_of(pre.push(input@[j as int])) =~= chars_of(pre).push(
                    Token::Character { byte: input@[j as int] },
                ));
                assert(tokens@ =~= old(tokens)@ + chars_of(
                    input@.subrange(from as int, (j + 1) as int),
                ));
            }
            j = j + 1;
        }
    }

    fn complete_tag(
        &mut self,
        sim: &mut TreeBuilderSimulator,
        self_closing: bool,
        Ghost(input): Ghost<Seq<u8>>,
    ) -> (tok: Token)
        requires
            old(self).wf(input.len() as int),
        ensures
            final(self).wf(input.len() as int),
            final(self).input_cursor == old(self).input_cursor,
            is_tag_token(tok),
            ({
                let r = completed_tag(old(self).model(input, old(sim)@), self_closing);
                &&& final(self).model(input, final(sim)@) == r.0
                &&& seq![tok] == r.1
            }),
    {
        let h: u64 = match self.tag_name_hash {
            Some(v) => v,
            None => 0,
        };
        let tok: Token;
        if self.is_in_end_tag {
            sim.notify_end_tag(h);
            self.state = State::Data;
            self.text_parsing_mode = TextParsingMode::Data;
            tok = Token::EndTag { name_hash: Some(h) };
        } else {
            sim.notify_start_tag(h, self_closing);
            let mode = if self_closing {
                TextParsingMode::Data
            } else {
                policy_for(h)
            };
            self.text_parsing_mode = mode;
            self.state = if mode == TextParsingMode::Data {
                State::Data
            } else {
                State::RawText
            };
            self.last_start_tag_name_hash = Some(h);
            tok = Token::StartTag { name_hash: Some(h), self_closing };
        }
        self.allow_cdata = sim.cdata_allowed();
        self.is_in_end_tag = false;
        self.tag_name_hash = None;
        self.tag_start = None;
        self.tag_name_start = 0;
        self.state_enter = true;
        proof {
            let r = completed_tag(old(self).model(input, old(sim)@), self_closing);
            assert(self.model(input, sim@) =~~= r.0);
        }
        tok
    }

    /// The bookmark that resumes tokenization at `pos` with this machine's
    /// current mode and context.
    pub fn create_bookmark(&self, pos: usize) -> (bm: StateMachineBookmark)
        ensures
            bm.allow_cdata == self.allow_cdata,
            bm.text_parsing_mode == self.text_parsing_mode,
            bm.last_start_tag_name_hash == self.last_start_tag_name_hash,
            bm.pos == pos,
    {
        StateMachineBookmark {
            allow_cdata: self.allow_cdata,
            text_parsing_mode: self.text_parsing_mode,
            last_start_tag_name_hash: self.last_start_tag_name_hash,
            pos,
        }
    }

    /// Runs the transition table over the chunk from the current position.
    /// Consumed bytes drive the shared model exactly one `step` each; the
    /// tokens that match the requested output granularity are appended to
    /// `tokens`. The run stops when the chunk is exhausted, or as soon as the
    /// handler's answer to a completed tag preview differs from the current
    /// granularity — then a bookmark for the position after that tag is
    /// yielded.
    pub fn run<H: TagPreviewHandler>(
        &mut self,
        input: &[u8],
        sim: &mut TreeBuilderSimulator,
        tokens: &mut Vec<Token>,
        handler: &mut H,
        current: NextOutputType,
    ) -> (r: ParsingLoopTerminationReason)
        requires
            old(self).wf(input@.len() as int),
        ensures
            final(self).wf(input@.len() as int),
            old(self).input_cursor.pos <= final(self).input_cursor.pos <= input@.len(),
            ({
                let consumed = input@.subrange(
                    old(self).input_cursor.pos as int,
                    final(self).input_cursor.pos as int,
                );
                let scanned = scan(old(self).model(input@, old(sim)@), consumed);
                &&& final(self).model(input@, final(sim)@) == scanned.0
                &&& final(tokens)@ == old(tokens)@ + kept_outputs(current, scanned.1)
                &&& (match r {
                    ParsingLoopTerminationReason::NeedsMoreInput => final(self).input_cursor.pos
                        == input@.len(),
                    ParsingLoopTerminationReason::OutputTypeSwitch(bm) => bm == bookmark_of(
                        scanned.0,
                        final(self).input_cursor.pos,
                    ) && old(self).input_cursor.pos < final(self).input_cursor.pos
                        && scanned.1.len() > 0 && is_tag_token(scanned.1.last()),
                })
            }),
    {
        let ghost pre = old(self).model(input@, old(sim)@);
        let ghost start = old(self).input_cursor.pos as int;
        let ghost base = old(tokens)@;
        let capture = match current {
            NextOutputType::TokenCapture => true,
            NextOutputType::TagPreview => false,
        };
        proof {
            assert(input@.subrange(start, start) =~= Seq::<u8>::empty());
            assert(base + kept_outputs(current, Seq::<Token>::empty()) =~= base);
        }
        while self.input_cursor.pos < input.len()
            invariant
                self.wf(input@.len() as int),
                start <= self.input_cursor.pos <= input@.len(),
                pre == old(self).model(input@, old(sim)@),
                start == old(self).input_cursor.pos as int,
                base == old(tokens)@,
                capture == (current == NextOutputType::TokenCapture),
                self.model(input@, sim@) == scan(
                    pre,
                    input@.subrange(start, self.input_cursor.pos as int),
                ).0,
                tokens@ == base + kept_outputs(
                    current,
                    scan(pre, input@.subrange(start, self.input_cursor.pos as int)).1,
                ),
            decreases input@.len() - self.input_cursor.pos,
        {
            let pos = self.input_cursor.pos;
            let b = input[pos];
            let ghost consumed = input@.subrange(start, pos as int);
            let ghost mpre = self.model(input@, sim@);
            let ghost stepped = step(mpre, b);
            proof {
                lemma_scan_snoc(pre, consumed, b);
                assert(input@.subrange(start, (pos + 1) as int) =~= consumed.push(b));
                if current == NextOutputType::TagPreview {
                    lemma_tags_only_concat(scan(pre, consumed).1, stepped.1);
                }
            }
            let completed = self.step_byte(input, sim, tokens, pos, b, capture);
            proof {
                let scan_old = scan(pre, consumed);
                let full = input@.subrange(start, self.input_cursor.pos as int);
                assert(full =~= consumed.push(b));
                assert(self.model(input@, sim@) =~~= stepped.0);
                assert(tokens@ =~= (base + kept_outputs(current, scan_old.1)) + kept_outputs(
                    current,
                    stepped.1,
                ));
                assert(kept_outputs(current, scan(pre, full).1) =~= kept_outputs(
                    current,
                    scan_old.1,
                ) + kept_outputs(current, stepped.1));
                assert(tokens@ =~= base + kept_outputs(current, scan(pre, full).1));
            }
            if let Some(tok) = completed {
                let want = handler.handle_tag_preview(&tok);
                let switch = match (want, current) {
                    (NextOutputType::TagPreview, NextOutputType::TagPreview) => false,
                    (NextOutputType::TokenCapture, NextOutputType::TokenCapture) => false,
                    _ => true,
                };
                if switch {
                    proof {
                        let full = input@.subrange(start, self.input_cursor.pos as int);
                        assert(scan(pre, full).1 =~= scan(pre, consumed).1 + seq![tok]);
                        assert(scan(pre, full).1.last() == tok);
                    }
                    let bm = self.create_bookmark(self.input_cursor.pos);
                    return ParsingLoopTerminationReason::OutputTypeSwitch(bm);
                }
            }
        }
        ParsingLoopTerminationReason::NeedsMoreInput
    }

    fn step_byte(
        &mut self,
        input: &[u8],
        sim: &mut TreeBuilderSimulator,
        tokens: &mut Vec<Token>,
        pos: usize,
        b: u8,
        capture: bool,
    ) -> (completed: Option<Token>)
        requires
            old(self).wf(input@.len() as int),
            old(self).input_cursor.pos == pos,
            pos < input@.len(),
            b == input@[pos as int],
        ensures
            final(self).wf(input@.len() as int),
            final(self).input_cursor.pos == pos + 1,
            ({
                let stepped = step(old(self).model(input@, old(sim)@), b);
                &&& final(self).model(input@, final(sim)@) == stepped.0
                &&& final(tokens)@ == old(tokens)@ + (if capture {
                    stepped.1
                } else {
                    tags_only(stepped.1)
                })
                &&& (match completed {
                    Some(t) => stepped.1 == seq![t] && is_tag_token(t),
                    None => true,
                })
            }),
    {
        match self.state {
            State::Data | State::TagOpen | State::EndTagOpen | State::TagName => self.step_byte_data(
                input,
                sim,
                tokens,
                pos,
                b,
                capture,
            ),
            State::BeforeAttributeName | State::AttributeName | State::BeforeAttributeValue
                | State::AttributeValueQuoted | State::AttributeValueUnquoted
                | State::AfterAttributeValueQuoted | State::SelfClosingStartTag => self
                .step_byte_attr(input, sim, tokens, pos, b, capture),
            State::MarkupDeclaration | State::CommentStartDash | State::Comment
                | State::CommentEndDash | State::CommentEnd | State::BogusComment => self
                .step_byte_comment(input, sim, tokens, pos, b, capture),
            State::RawText | State::RawTextLessThan | State::RawTextEndTagOpen
                | State::RawTextEndTagName => self.step_byte_raw(input, sim, tokens, pos, b, capture),
        }
    }

    #[verifier::rlimit(100)]
    fn step_byte_data(
        &mut self,
        input: &[u8],
        sim: &mut TreeBuilderSimulator,
        tokens: &mut Vec<Token>,
        pos: usize,
        b: u8,
        capture: bool,
    ) -> (completed: Option<Token>)
        requires
            old(self).wf(input@.len() as int),
            old(self).input_cursor.pos == pos,
            pos < input@.len(),
            b == input@[pos as int],
            (old(self).state == State::Data || old(self).state == State::TagOpen || old(self).state == State::EndTagOpen || old(self).state == State::TagName),
        ensures
            final(self).wf(input@.len() as int),
            final(self).input_cursor.pos == pos + 1,
            ({
                let stepped = step(old(self).model(input@, old(sim)@), b);
                &&& final(self).model(input@, final(sim)@) == stepped.0
                &&& final(tokens)@ == old(tokens)@ + (if capture {
                    stepped.1
                } else {
                    tags_only(stepped.1)
                })
                &&& (match completed {
                    Some(t) => stepped.1 == seq![t] && is_tag_token(t),
                    None => true,
                })
            }),
    {
        let ghost mpre = self.model(input@, sim@);
        let ghost stepped = step(mpre, b);
        proof {
            if let Some(ts) = self.tag_start {
                assert(input@.subrange(ts as int, (pos + 1) as int) =~= input@.subrange(
                    ts as int,
                    pos as int,
                ).push(b));
            }
            assert(input@.subrange(pos as int, (pos + 1) as int) =~= seq![b]);
        }
        let _chunk_len = input.len();
        self.input_cursor.pos = pos + 1;
        let mut completed: Option<Token> = None;
        match self.state {
            State::Data => {
                if b == 60 {
                    self.state = State::TagOpen;
                    self.is_in_end_tag = false;
                    self.tag_name_hash = None;
                    self.state_enter = true;
                    self.tag_start = Some(pos);
                    self.tag_name_start = pos;
                } else {
                    self.state_enter = false;
                    if capture {
                        tokens.push(Token::Character { byte: b });
                    }
                    proof {
                        lemma_tags_only_single(Token::Character { byte: b });
                    }
                }
            },
            State::TagOpen => {
                if is_alpha(b) {
                    self.state = State::TagName;
                    self.is_in_end_tag = false;
                    self.tag_name_hash = Some(update_hash(0, b));
                    self.state_enter = true;
                    self.tag_name_start = pos;
                } else if b == 47 {
                    self.state = State::EndTagOpen;
                    self.state_enter = true;
                } else if b == 33 {
                    self.state = State::MarkupDeclaration;
                    self.state_enter = true;
                } else {
                    self.reject_candidate(input, tokens, pos, b, false, capture);
                    proof {
                        lemma_tags_only_chars(mpre.pending);
                        if b != 60 {
                            lemma_tags_only_single(Token::Character { byte: b });
                        }
                        lemma_tags_only_concat(
                            chars_of(mpre.pending),
                            if b == 60 {
                                Seq::<Token>::empty()
                            } else {
                                seq![Token::Character { byte: b }]
                            },
                        );
                    }
                }
            },
            State::EndTagOpen => {
                if is_alpha(b) {
                    self.state = State::TagName;
                    self.is_in_end_tag = true;
                    self.tag_name_hash = Some(update_hash(0, b));
                    self.state_enter = true;
                    self.tag_name_start = pos;
                } else if b == 62 {
                    self.state = State::Data;
                    self.is_in_end_tag = false;
                    self.tag_name_hash = None;
                    self.state_enter = true;
                    self.tag_start = None;
                    self.tag_name_start = 0;
                } else {
                    self.state = State::BogusComment;
                    self.state_enter = true;
                }
            },
            State::TagName => {
                if is_space(b) {
                    self.state = State::BeforeAttributeName;
                    self.state_enter = true;
                } else if b == 47 {
                    self.state = State::SelfClosingStartTag;
                    self.state_enter = true;
                } else if b == 62 {
                    let tok = self.complete_tag(sim, false, Ghost(input@));
                    tokens.push(tok);
                    completed = Some(tok);
                    proof {
                        lemma_tags_only_single(tok);
                    }
                } else {
                    let h: u64 = match self.tag_name_hash {
                        Some(v) => v,
                        None => 0,
                    };
                    self.tag_name_hash = Some(update_hash(h, b));
                    self.state_enter = false;
                }
            },
            _ => {
                proof {
                    assert(false);
                }
            },
        }
        proof {
            assert(self.model(input@, sim@) =~~= stepped.0);
            assert(tokens@ =~= old(tokens)@ + (if capture {
                stepped.1
            } else {
                tags_only(stepped.1)
            }));
        }
        completed
    }

    #[verifier::rlimit(100)]
    fn step_byte_attr(
        &mut self,
        input: &[u8],
        sim: &mut TreeBuilderSimulator,
        tokens: &mut Vec<Token>,
        pos: usize,
        b: u8,
        capture: bool,
    ) -> (completed: Option<Token>)
        requires
            old(self).wf(input@.len() as int),
            old(self).input_cursor.pos == pos,
            pos < input@.len(),
            b == input@[pos as int],
            (old(self).state == State::BeforeAttributeName || old(self).state == State::AttributeName || old(self).state == State::BeforeAttributeValue || old(self).state == State::AttributeValueQuoted || old(self).state == State::AttributeValueUnquoted || old(self).state == State::AfterAttributeValueQuoted || old(self).state == State::SelfClosingStartTag),
        ensures
            final(self).wf(input@.len() as int),
            final(self).input_cursor.pos == pos + 1,
            ({
                let stepped = step(old(self).model(input@, old(sim)@), b);
                &&& final(self).model(input@, final(sim)@) == stepped.0
                &&& final(tokens)@ == old(tokens)@ + (if capture {
                    stepped.1
                } else {
                    tags_only(stepped.1)
                })
                &&& (match completed {
                    Some(t) => stepped.1 == seq![t] && is_tag_token(t),
                    None => true,
                })
            }),
    {
        let ghost mpre = self.model(input@, sim@);
        let ghost stepped = step(mpre, b);
        proof {
            if let Some(ts) = self.tag_start {
                assert(input@.subrange(ts as int, (pos + 1) as int) =~= input@.subrange(
                    ts as int,
                    pos as int,
                ).push(b));
            }
            assert(input@.subrange(pos as int, (pos + 1) as int) =~= seq![b]);
        }
        let _chunk_len = input.len();
        self.input_cursor.pos = pos + 1;
        let mut completed: Option<Token> = None;
        match self.state {
            State::BeforeAttributeName => {
                if is_space(b) {
                    self.state_enter = false;
                } else if b == 47 {
                    self.state = State::SelfClosingStartTag;
                    self.state_enter = true;
                } else if b == 62 {
                    let tok = self.complete_tag(sim, false, Ghost(input@));
                    tokens.push(tok);
                    completed = Some(tok);
                    proof {
                        lemma_tags_only_single(tok);
                    }
                } else if b == 61 {
                    self.state = State::BeforeAttributeValue;
                    self.state_enter = true;
                } else {
                    self.state = State::AttributeName;
                    self.state_enter = true;
                }
            },
            State::AttributeName => {
                if is_space(b) {
                    self.state = State::BeforeAttributeName;
                    self.state_enter = true;
                } else if b == 61 {
                    self.state = State::BeforeAttributeValue;
                    self.state_enter = true;
                } else if b == 47 {
                    self.state = State::SelfClosingStartTag;
                    self.state_enter = true;
                } else if b == 62 {
                    let tok = self.complete_tag(sim, false, Ghost(input@));
                    tokens.push(tok);
                    completed = Some(tok);
                    proof {
                        lemma_tags_only_single(tok);
                    }
                } else {
                    self.state_enter = false;
                }
            },
            State::BeforeAttributeValue => {
                if is_space(b) {
                    self.state_enter = false;
                } else if b == 34 || b == 39 {
                    self.state = State::AttributeValueQuoted;
                    self.closing_quote = b;
                    self.state_enter = true;
                } else if b == 62 {
                    let tok = self.complete_tag(sim, false, Ghost(input@));
                    tokens.push(tok);
                    completed = Some(tok);
                    proof {
                        lemma_tags_only_single(tok);
                    }
                } else {
                    self.state = State::AttributeValueUnquoted;
                    self.state_enter = true;
                }
            },
            State::AttributeValueQuoted => {
                if b == self.closing_quote {
                    self.state = State::AfterAttributeValueQuoted;
                    self.state_enter = true;
                } else {
                    self.state_enter = false;
                }
            },
            State::AttributeValueUnquoted => {
                if is_space(b) {
                    self.state = State::BeforeAttributeName;
                    self.state_enter = true;
                } else if b == 62 {
                    let tok = self.complete_tag(sim, false, Ghost(input@));
                    tokens.push(tok);
                    completed = Some(tok);
                    proof {
                        lemma_tags_only_single(tok);
                    }
                } else {
                    self.state_enter = false;
                }
            },
            State::AfterAttributeValueQuoted => {
                if is_space(b) {
                    self.state = State::BeforeAttributeName;
                    self.state_enter = true;
                } else if b == 47 {
                    self.state = State::SelfClosingStartTag;
                    self.state_enter = true;
                } else if b == 62 {
                    let tok = self.complete_tag(sim, false, Ghost(input@));
                    tokens.push(tok);
                    completed = Some(tok);
                    proof {
                        lemma_tags_only_single(tok);
                    }
                } else {
                    self.state = State::AttributeName;
                    self.state_enter = true;
                }
            },
            State::SelfClosingStartTag => {
                if b == 62 {
                    let tok = self.complete_tag(sim, true, Ghost(input@));
                    tokens.push(tok);
                    completed = Some(tok);
                    proof {
                        lemma_tags_only_single(tok);
                    }
                } else if is_space(b) {
                    self.state = State::BeforeAttributeName;
                    self.state_enter = true;
                } else if b == 47 {
                    self.state_enter = false;
                } else if b == 61 {
                    self.state = State::BeforeAttributeValue;
                    self.state_enter = true;
                } else {
                    self.state = State::AttributeName;
                    self.state_enter = true;
                }
            },
            _ => {
                proof {
                    assert(false);
                }
            },
        }
        proof {
            assert(self.model(input@, sim@) =~~= stepped.0);
            assert(tokens@ =~= old(tokens)@ + (if capture {
                stepped.1
            } else {
                tags_only(stepped.1)
            }));
        }
        completed
    }

    #[verifier::rlimit(100)]
    fn step_byte_comment(
        &mut self,
        input: &[u8],
        sim: &mut TreeBuilderSimulator,
        tokens: &mut Vec<Token>,
        pos: usize,
        b: u8,
        capture: bool,
    ) -> (completed: Option<Token>)
        requires
            old(self).wf(input@.len() as int),
            old(self).input_cursor.pos == pos,
            pos < input@.len(),
            b == input@[pos as int],
            (old(self).state == State::MarkupDeclaration || old(self).state == State::CommentStartDash || old(self).state == State::Comment || old(self).state == State::CommentEndDash || old(self).state == State::CommentEnd || old(self).state == State::BogusComment),
        ensures
            final(self).wf(input@.len() as int),
            final(self).input_cursor.pos == pos + 1,
            ({
                let stepped = step(old(self).model(input@, old(sim)@), b);
                &&& final(self).model(input@, final(sim)@) == stepped.0
                &&& final(tokens)@ == old(tokens)@ + (if capture {
                    stepped.1
                } else {
                    tags_only(stepped.1)
                })
                &&& (match completed {
                    Some(t) => stepped.1 == seq![t] && is_tag_token(t),
                    None => true,
                })
            }),
    {
        let ghost mpre = self.model(input@, sim@);
        let ghost stepped = step(mpre, b);
        proof {
            if let Some(ts) = self.tag_start {
                assert(input@.subrange(ts as int, (pos + 1) as int) =~= input@.subrange(
                    ts as int,
                    pos as int,
                ).push(b));
            }
            assert(input@.subrange(pos as int, (pos + 1) as int) =~= seq![b]);
        }
        let _chunk_len = input.len();
        self.input_cursor.pos = pos + 1;
        let mut completed: Option<Token> = None;
        match self.state {
            State::MarkupDeclaration => {
                if b == 45 {
                    self.state = State::CommentStartDash;
                    self.state_enter = true;
                } else if b == 62 {
                    self.close_comment();
                    if capture {
                        tokens.push(Token::Comment);
                    }
                    proof {
                        lemma_tags_only_single(Token::Comment);
                    }
                } else {
                    self.state = State::BogusComment;
                    self.state_enter = true;
                }
            },
            State::CommentStartDash => {
                if b == 45 {
                    self.state = State::Comment;
                    self.state_enter = true;
                } else if b == 62 {
                    self.close_comment();
                    if capture {
                        tokens.push(Token::Comment);
                    }
                    proof {
                        lemma_tags_only_single(Token::Comment);
                    }
                } else {
                    self.state = State::BogusComment;
                    self.state_enter = true;
                }
            },
            State::Comment => {
                if b == 45 {
                    self.state = State::CommentEndDash;
                    self.state_enter = true;
                } else {
                    self.state_enter = false;
                }
            },
            State::CommentEndDash => {
                if b == 45 {
                    self.state = State::CommentEnd;
                    self.state_enter = true;
                } else {
                    self.state = State::Comment;
                    self.state_enter = true;
                }
            },
            State::CommentEnd => {
                if b == 62 {
                    self.close_comment();
                    if capture {
                        tokens.push(Token::Comment);
                    }
                    proof {
                        lemma_tags_only_single(Token::Comment);
                    }
                } else if b == 45 {
                    self.state_enter = false;
                } else {
                    self.state = State::Comment;
                    self.state_enter = true;
                }
            },
            State::BogusComment => {
                if b == 62 {
                    self.close_comment();
                    if capture {
                        tokens.push(Token::Comment);
                    }
                    proof {
                        lemma_tags_only_single(Token::Comment);
                    }
                } else {
                    self.state_enter = false;
                }
            },
            _ => {
                proof {
                    assert(false);
                }
            },
        }
        proof {
            assert(self.model(input@, sim@) =~~= stepped.0);
            assert(tokens@ =~= old(tokens)@ + (if capture {
                stepped.1
            } else {
                tags_only(stepped.1)
            }));
        }
        completed
    }

    #[verifier::rlimit(100)]
    fn step_byte_raw(
        &mut self,
        input: &[u8],
        sim: &mut TreeBuilderSimulator,
        tokens: &mut Vec<Token>,
        pos: usize,
        b: u8,
        capture: bool,
    ) -> (completed: Option<Token>)
        requires
            old(self).wf(input@.len() as int),
            old(self).input_cursor.pos == pos,
            pos < input@.len(),
            b == input@[pos as int],
            (old(self).state == State::RawText || old(self).state == State::RawTextLessThan || old(self).state == State::RawTextEndTagOpen || old(self).state == State::RawTextEndTagName),
        ensures
            final(self).wf(input@.len() as int),
            final(self).input_cursor.pos == pos + 1,
            ({
                let stepped = step(old(self).model(input@, old(sim)@), b);
                &&& final(self).model(input@, final(sim)@) == stepped.0
                &&& final(tokens)@ == old(tokens)@ + (if capture {
                    stepped.1
                } else {
                    tags_only(stepped.1)
                })
                &&& (match completed {
                    Some(t) => stepped.1 == seq![t] && is_tag_token(t),
                    None => true,
                })
            }),
    {
        let ghost mpre = self.model(input@, sim@);
        let ghost stepped = step(mpre, b);
        proof {
            if let Some(ts) = self.tag_start {
                assert(input@.subrange(ts as int, (pos + 1) as int) =~= input@.subrange(
                    ts as int,
                    pos as int,
                ).push(b));
            }
            assert(input@.subrange(pos as int, (pos + 1) as int) =~= seq![b]);
        }
        let _chunk_len = input.len();
        self.input_cursor.pos = pos + 1;
        let mut completed: Option<Token> = None;
        match self.state {
            State::RawText => {
                if b == 60 {
                    self.state = State::RawTextLessThan;
                    self.is_in_end_tag = false;
                    self.tag_name_hash = None;
                    self.state_enter = true;
                    self.tag_start = Some(pos);
                    self.tag_name_start = pos;
                } else {
                    self.state_enter = false;
                    if capture {
                        tokens.push(Token::Character { byte: b });
                    }
                    proof {
                        lemma_tags_only_single(Token::Character { byte: b });
                    }
                }
            },
            State::RawTextLessThan => {
                if b == 47 {
                    self.state = State::RawTextEndTagOpen;
                    self.state_enter = true;
                } else {
                    self.reject_candidate(input, tokens, pos, b, true, capture);
                    proof {
                        lemma_tags_only_chars(mpre.pending);
                        if b != 60 {
                            lemma_tags_only_single(Token::Character { byte: b });
                        }
                        lemma_tags_only_concat(
                            chars_of(mpre.pending),
                            if b == 60 {
                                Seq::<Token>::empty()
                            } else {
                                seq![Token::Character { byte: b }]
                            },
                        );
                    }
                }
            },
            State::RawTextEndTagOpen => {
                if is_alpha(b) {
                    self.state = State::RawTextEndTagName;
                    self.is_in_end_tag = true;
                    self.tag_name_hash = Some(update_hash(0, b));
                    self.state_enter = true;
                    self.tag_name_start = pos;
                } else {
                    self.reject_candidate(input, tokens, pos, b, true, capture);
                    proof {
                        lemma_tags_only_chars(mpre.pending);
                        if b != 60 {
                            lemma_tags_only_single(Token::Character { byte: b });
                        }
                        lemma_tags_only_concat(
                            chars_of(mpre.pending),
                            if b == 60 {
                                Seq::<Token>::empty()
                            } else {
                                seq![Token::Character { byte: b }]
                            },
                        );
                    }
                }
            },
            State::RawTextEndTagName => {
                let name_matches = match (self.tag_name_hash, self.last_start_tag_name_hash) {
                    (Some(x), Some(y)) => x == y,
                    _ => false,
                };
                if is_alpha(b) {
                    let h: u64 = match self.tag_name_hash {
                        Some(v) => v,
                        None => 0,
                    };
                    self.tag_name_hash = Some(update_hash(h, b));
                    self.state_enter = false;
                } else if b == 62 && name_matches {
                    let tok = self.complete_tag(sim, false, Ghost(input@));
                    tokens.push(tok);
                    completed = Some(tok);
                    proof {
                        lemma_tags_only_single(tok);
                    }
                } else if is_space(b) && name_matches {
                    self.state = State::BeforeAttributeName;
                    self.state_enter = true;
                } else if b == 47 && name_matches {
                    self.state = State::SelfClosingStartTag;
                    self.state_enter = true;
                } else {
                    self.reject_candidate(input, tokens, pos, b, true, capture);
                    proof {
                        lemma_tags_only_chars(mpre.pending);
                        if b != 60 {
                            lemma_tags_only_single(Token::Character { byte: b });
                        }
                        lemma_tags_only_concat(
                            chars_of(mpre.pending),
                            if b == 60 {
                                Seq::<Token>::empty()
                            } else {
                                seq![Token::Character { byte: b }]
                            },
                        );
                    }
                }
            },
            _ => {
                proof {
                    assert(false);
                }
            },
        }
        proof {
            assert(self.model(input@, sim@) =~~= stepped.0);
            assert(tokens@ =~= old(tokens)@ + (if capture {
                stepped.1
            } else {
                tags_only(stepped.1)
            }));
        }
        completed
    }


    /// Runs the transition table over the whole remainder of the chunk in
    /// capture granularity, with no handler consulted: every token is
    /// appended and the chunk is always exhausted.
    pub fn run_captured(
        &mut self,
        input: &[u8],
        sim: &mut TreeBuilderSimulator,
        tokens: &mut Vec<Token>,
    )
        requires
            old(self).wf(input@.len() as int),
        ensures
            final(self).wf(input@.len() as int),
            old(self).input_cursor.pos <= final(self).input_cursor.pos,
            final(self).input_cursor.pos == input@.len(),
            ({
                let consumed = input@.subrange(old(self).input_cursor.pos as int, input@.len() as int);
                let scanned = scan(old(self).model(input@, old(sim)@), consumed);
                &&& final(self).model(input@, final(sim)@) == scanned.0
                &&& final(tokens)@ == old(tokens)@ + scanned.1
            }),
    {
        let ghost pre = old(self).model(input@, old(sim)@);
        let ghost start = old(self).input_cursor.pos as int;
        let ghost base = old(tokens)@;
        proof {
            assert(input@.subrange(start, start) =~= Seq::<u8>::empty());
            assert(base + scan(pre, Seq::<u8>::empty()).1 =~= base);
        }
        while self.input_cursor.pos < input.len()
            invariant
                self.wf(input@.len() as int),
                start <= self.input_cursor.pos <= input@.len(),
                pre == old(self).model(input@, old(sim)@),
                start == old(self).input_cursor.pos as int,
                base == old(tokens)@,
                self.model(input@, sim@) == scan(
                    pre,
                    input@.subrange(start, self.input_cursor.pos as int),
                ).0,
                tokens@ == base + scan(pre, input@.subrange(start, self.input_cursor.pos as int)).1,
            decreases input@.len() - self.input_cursor.pos,
        {
            let pos = self.input_cursor.pos;
            let b = input[pos];
            let ghost consumed = input@.subrange(start, pos as int);
            let ghost mpre = self.model(input@, sim@);
            let ghost stepped = step(mpre, b);
            proof {
                lemma_scan_snoc(pre, consumed, b);
                assert(input@.subrange(start, (pos + 1) as int) =~= consumed.push(b));
            }
            let _completed = self.step_byte(input, sim, tokens, pos, b, true);
            proof {
                let scan_old = scan(pre, consumed);
                let full = input@.subrange(start, self.input_cursor.pos as int);
                assert(full =~= consumed.push(b));
                assert(tokens@ =~= (base + scan_old.1) + stepped.1);
                assert(tokens@ =~= base + scan(pre, full).1);
            }
        }
        proof {
            assert(input@.subrange(start, input@.len() as int) == input@.subrange(
                start,
                self.input_cursor.pos as int,
            ));
        }
    }

    fn close_comment(&mut self)
        ensures
            *final(self) == (StateMachineCore {
                state: State::Data,
                is_in_end_tag: false,
                tag_name_hash: None,
                state_enter: true,
                tag_start: None,
                tag_name_start: 0,
                ..*old(self)
            }),
    {
        self.state = State::Data;
        self.is_in_end_tag = false;
        self.tag_name_hash = None;
        self.state_enter = true;
        self.tag_start = None;
        self.tag_name_start = 0;
    }

    fn reject_candidate(
        &mut self,
        input: &[u8],
        tokens: &mut Vec<Token>,
        pos: usize,
        b: u8,
        raw: bool,
        capture: bool,
    )
        requires
            pos < input@.len(),
            input@[pos as int] == b,
            old(self).input_cursor.pos == pos + 1,
            match old(self).tag_start {
                Some(ts) => ts <= pos,
                None => true,
            },
        ensures
            final(self).input_cursor == old(self).input_cursor,
            final(self).wf(input@.len() as int),
            ({
                let pending = match old(self).tag_start {
                    Some(ts) => input@.subrange(ts as int, pos as int),
                    None => Seq::<u8>::empty(),
                };
                let emitted = if b == 60 {
                    chars_of(pending)
                } else {
                    chars_of(pending) + seq![Token::Character { byte: b }]
                };
                &&& final(tokens)@ == old(tokens)@ + (if capture {
                    emitted
                } else {
                    Seq::<Token>::empty()
                })
                &&& final(self).is_in_end_tag == false
                &&& final(self).tag_name_hash == Option::<u64>::None
                &&& final(self).state_enter == true
                &&& final(self).last_start_tag_name_hash == old(self).last_start_tag_name_hash
                &&& final(self).closing_quote == old(self).closing_quote
                &&& final(self).allow_cdata == old(self).allow_cdata
                &&& final(self).text_parsing_mode == old(self).text_parsing_mode
                &&& (if b == 60 {
                    final(self).tag_start == Some(pos) && final(self).state == (if raw {
                        State::RawTextLessThan
                    } else {
                        State::TagOpen
                    })
                } else {
                    final(self).tag_start == Option::<usize>::None && final(self).state == (if raw {
                        State::RawText
                    } else {
                        State::Data
                    })
                })
            }),
    {
        if capture {
            match self.tag_start {
                Some(ts) => Self::emit_pending_chars(tokens, input, ts, pos),
                None => {
                    proof {
                        assert(tokens@ =~= old(tokens)@ + chars_of(Seq::<u8>::empty()));
                        assert(chars_of(Seq::<u8>::empty()) =~= Seq::<Token>::empty());
                    }
                },
            }
        }
        self.is_in_end_tag = false;
        self.tag_name_hash = None;
        if b == 60 {
            self.state = if raw {
                State::RawTextLessThan
            } else {
                State::TagOpen
            };
            self.tag_start = Some(pos);
            self.tag_name_start = pos;
        } else {
            self.state = if raw {
                State::RawText
            } else {
                State::Data
            };
            self.tag_start = None;
            self.tag_name_start = 0;
            if capture {
                tokens.push(Token::Character { byte: b });
            }
        }
        self.state_enter = true;
        proof {
            if !capture {
                assert(tokens@ =~= old(tokens)@);
            }
        }
    }

    /// How many trailing bytes of the chunk belong to the open tag candidate
    /// and must be retained for the next chunk: everything from where the
    /// open tag began (or from the chunk's start if no tag is open).
    pub fn get_blocked_byte_count(&self, input: &[u8]) -> (r: usize)
        requires
            self.wf(input@.len() as int),
            self.input_cursor.pos == input@.len(),
        ensures
            r == input@.len() - (match self.tag_start {
                Some(ts) => ts as int,
                None => 0int,
            }),
    {
        let ts = match self.tag_start {
            Some(t) => t,
            None => 0,
        };
        input.len() - ts
    }

    /// Re-bases all internal offsets for the next chunk, whose start is the
    /// retained tail of the previous one: the cursor and the tag-name start
    /// shift down by the old tag start, which becomes zero. With no open tag
    /// the call changes nothing. Must be called exactly once between chunks.
    pub fn adjust_for_next_input(&mut self)
        requires
            (match old(self).tag_start {
                Some(ts) => ts <= old(self).tag_name_start <= old(self).input_cursor.pos,
                None => true,
            }),
        ensures
            *final(self) == (match old(self).tag_start {
                Some(ts) => StateMachineCore {
                    input_cursor: Cursor { pos: (old(self).input_cursor.pos - ts) as usize },
                    tag_name_start: (old(self).tag_name_start - ts) as usize,
                    tag_start: Some(0usize),
                    ..*old(self)
                },
                None => *old(self),
            }),
    {
        if let Some(ts) = self.tag_start {
            self.input_cursor.align(ts);
            self.tag_name_start = self.tag_name_start - ts;
            self.tag_start = Some(0);
        }
    }

    /// Seeds this machine from a bookmark produced by the other machine, so
    /// it resumes with identical semantics.
    pub fn continue_from_bookmark(&mut self, bm: &StateMachineBookmark)
        ensures
            *final(self) == (StateMachineCore {
                input_cursor: Cursor { pos: bm.pos },
                tag_start: None,
                tag_name_start: 0,
                is_in_end_tag: false,
                tag_name_hash: None,
                last_start_tag_name_hash: bm.last_start_tag_name_hash,
                state_enter: true,
                allow_cdata: bm.allow_cdata,
                state: (match bm.text_parsing_mode {
                    TextParsingMode::Data => State::Data,
                    TextParsingMode::RawText => State::RawText,
                    TextParsingMode::RCData => State::RawText,
                }),
                closing_quote: old(self).closing_quote,
                text_parsing_mode: bm.text_parsing_mode,
            }),
    {
        self.input_cursor.pos = bm.pos;
        self.tag_start = None;
        self.tag_name_start = 0;
        self.is_in_end_tag = false;
        self.tag_name_hash = None;
        self.last_start_tag_name_hash = bm.last_start_tag_name_hash;
        self.state_enter = true;
        self.allow_cdata = bm.allow_cdata;
        self.state = match bm.text_parsing_mode {
            TextParsingMode::Data => State::Data,
            TextParsingMode::RawText => State::RawText,
            TextParsingMode::RCData => State::RawText,
        };
        self.text_parsing_mode = bm.text_parsing_mode;
    }
}

} // verus!
