use vstd::prelude::*;

use crate::machine::{bookmark_of, initial_core, StateMachineCore};
use crate::state_machine::{scan, NextOutputType, ParsingLoopTerminationReason,
    StateMachineBookmark, TagPreviewHandler, Token};
use crate::tree_builder_simulator::TreeBuilderSimulator;

verus! {

/// The full tokenizing machine: it interprets the same transition table as
/// the preview machine but captures the whole token stream — characters,
/// comment markers and tags. When its handler no longer needs full capture,
/// the run yields a bookmark and the preview machine takes over.
pub struct FullStateMachine<H: TagPreviewHandler> {
    pub core: StateMachineCore,
    pub token_handler: H,
}

impl<H: TagPreviewHandler> FullStateMachine<H> {
    /// A full machine at the start of the stream.
    pub fn new(token_handler: H) -> (r: FullStateMachine<H>)
        ensures
            r.core == initial_core(),
    {
        FullStateMachine { core: StateMachineCore::new(), token_handler }
    }

    /// Runs in capture granularity: every token of the stream is appended to
    /// `tokens`, and after each completed tag the handler decides whether
    /// full capture is still needed — if not, the run stops with a bookmark
    /// for the position right after that tag.
    pub fn run(
        &mut self,
        input: &[u8],
        sim: &mut TreeBuilderSimulator,
        tokens: &mut Vec<Token>,
    ) -> (r: ParsingLoopTerminationReason)
        requires
            old(self).core.wf(input@.len() as int),
        ensures
            final(self).core.wf(input@.len() as int),
            old(self).core.input_cursor.pos <= final(self).core.input_cursor.pos <= input@.len(),
            ({
                let consumed = input@.subrange(
                    old(self).core.input_cursor.pos as int,
                    final(self).core.input_cursor.pos as int,
                );
                let scanned = scan(old(self).core.model(input@, old(sim)@), consumed);
                &&& final(self).core.model(input@, final(sim)@) == scanned.0
                &&& final(tokens)@ == old(tokens)@ + scanned.1
                &&& (match r {
                    ParsingLoopTerminationReason::NeedsMoreInput => final(self).core.input_cursor.pos
                        == input@.len(),
                    ParsingLoopTerminationReason::OutputTypeSwitch(bm) => bm == bookmark_of(
                        scanned.0,
                        final(self).core.input_cursor.pos,
                    ) && old(self).core.input_cursor.pos < final(self).core.input_cursor.pos
                        && scanned.1.len() > 0 && crate::state_machine::is_tag_token(
                        scanned.1.last(),
                    ),
                })
            }),
    {
        self.core.run(input, sim, tokens, &mut self.token_handler, NextOutputType::TokenCapture)
    }

    /// Seeds this machine from the bookmark the preview machine yielded, so
    /// it resumes with identical semantics.
    pub fn continue_from_bookmark(&mut self, bm: &StateMachineBookmark)
        ensures
            final(self).core == (StateMachineCore {
                input_cursor: crate::cursor::Cursor { pos: bm.pos },
                tag_start: None,
                tag_name_start: 0,
                is_in_end_tag: false,
                tag_name_hash: None,
                last_start_tag_name_hash: bm.last_start_tag_name_hash,
                state_enter: true,
                allow_cdata: bm.allow_cdata,
                state: (match bm.text_parsing_mode {
                    crate::tag_name::TextParsingMode::Data => crate::state_machine::State::Data,
                    crate::tag_name::TextParsingMode::RawText => crate::state_machine::State::RawText,
                    crate::tag_name::TextParsingMode::RCData => crate::state_machine::State::RawText,
                }),
                closing_quote: old(self).core.closing_quote,
                text_parsing_mode: bm.text_parsing_mode,
            }),
    {
        self.core.continue_from_bookmark(bm)
    }

    /// How many trailing bytes of the chunk must be retained for the next
    /// chunk.
    pub fn get_blocked_byte_count(&self, input: &[u8]) -> (r: usize)
        requires
            self.core.wf(input@.len() as int),
            self.core.input_cursor.pos == input@.len(),
        ensures
            r == input@.len() - (match self.core.tag_start {
                Some(ts) => ts as int,
                None => 0int,
            }),
    {
        self.core.get_blocked_byte_count(input)
    }

    /// Re-bases all offsets onto the next chunk (a call with no open tag
    /// changes nothing).
    pub fn adjust_for_next_input(&mut self)
        requires
            (match old(self).core.tag_start {
                Some(ts) => ts <= old(self).core.tag_name_start
                    <= old(self).core.input_cursor.pos,
                None => true,
            }),
        ensures
            final(self).core == (match old(self).core.tag_start {
                Some(ts) => StateMachineCore {
                    input_cursor: crate::cursor::Cursor {
                        pos: (old(self).core.input_cursor.pos - ts) as usize,
                    },
                    tag_name_start: (old(self).core.tag_name_start - ts) as usize,
                    tag_start: Some(0usize),
                    ..old(self).core
                },
                None => old(self).core,
            }),
    {
        self.core.adjust_for_next_input()
    }
}

} // verus!
