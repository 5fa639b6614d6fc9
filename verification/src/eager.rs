use vstd::prelude::*;

use crate::machine::{bookmark_of, initial_core, StateMachineCore};
use crate::state_machine::{scan, tags_only, NextOutputType, ParsingLoopDirective,
    ParsingLoopTerminationReason, State, StateMachineBookmark, TagPreviewHandler, Token};
use crate::tree_builder_simulator::TreeBuilderSimulator;

verus! {

/// The cheap scanning machine: it recognizes tag boundaries and reports tag
/// previews to its handler without emitting the text in between. When the
/// handler asks for fully captured tokens, the run yields a bookmark and the
/// full machine takes over.
pub struct EagerStateMachine<H: TagPreviewHandler> {
    pub core: StateMachineCore,
    pub tag_preview_handler: H,
}

impl<H: TagPreviewHandler> EagerStateMachine<H> {
    /// A preview machine at the start of the stream.
    pub fn new(tag_preview_handler: H) -> (r: EagerStateMachine<H>)
        ensures
            r.core == initial_core(),
    {
        EagerStateMachine { core: StateMachineCore::new(), tag_preview_handler }
    }

    /// Runs in preview granularity: of the token stream only the tag tokens
    /// are appended to `previews`, and after each one the handler decides
    /// whether full tokenization is now needed — if so, the run stops with a
    /// bookmark for the position right after that tag.
    pub fn run(
        &mut self,
        input: &[u8],
        sim: &mut TreeBuilderSimulator,
        previews: &mut Vec<Token>,
    ) -> (r: ParsingLoopTerminationReason)
        requires
            old(self).core.wf(input@.len() as int),
        ensures
            final(self).core.wf(input@.len() as int),
            old(self).core.input_cursor.pos <= final(self).core.input_cursor.pos <= input@.len(),
            ({
                let consumed = input@.subrange(
                    old(self).core.input_cursor.pos as int,
                    final(self).core.input_cursor.pos as int,
                );
                let scanned = scan(old(self).core.model(input@, old(sim)@), consumed);
                &&& final(self).core.model(input@, final(sim)@) == scanned.0
                &&& final(previews)@ == old(previews)@ + tags_only(scanned.1)
                &&& (match r {
                    ParsingLoopTerminationReason::NeedsMoreInput => final(self).core.input_cursor.pos
                        == input@.len(),
                    ParsingLoopTerminationReason::OutputTypeSwitch(bm) => bm == bookmark_of(
                        scanned.0,
                        final(self).core.input_cursor.pos,
                    ) && old(self).core.input_cursor.pos < final(self).core.input_cursor.pos
                        && scanned.1.len() > 0 && crate::state_machine::is_tag_token(
                        scanned.1.last(),
                    ),
                })
            }),
    {
        self.core.run(
            input,
            sim,
            previews,
            &mut self.tag_preview_handler,
            NextOutputType::TagPreview,
        )
    }

    /// The directive the parsing loop obeys when this machine decides to
    /// yield at `pos`: break out with a bookmark capturing scan position,
    /// CDATA permission, text-parsing mode and the last start-tag name hash.
    pub fn create_output_type_switch_loop_directive(&self, pos: usize) -> (r: ParsingLoopDirective)
        ensures
            r == ParsingLoopDirective::Break(
                ParsingLoopTerminationReason::OutputTypeSwitch(
                    StateMachineBookmark {
                        allow_cdata: self.core.allow_cdata,
                        text_parsing_mode: self.core.text_parsing_mode,
                        last_start_tag_name_hash: self.core.last_start_tag_name_hash,
                        pos,
                    },
                ),
            ),
    {
        let bookmark = self.core.create_bookmark(pos);
        ParsingLoopDirective::Break(ParsingLoopTerminationReason::OutputTypeSwitch(bookmark))
    }

    /// Seeds this machine from the bookmark the other machine yielded.
    pub fn continue_from_bookmark(&mut self, bm: &StateMachineBookmark)
        ensures
            final(self).core == (StateMachineCore {
                input_cursor: crate::cursor::Cursor { pos: bm.pos },
                tag_start: None,
                tag_name_start: 0,
                is_in_end_tag: false,
                tag_name_hash: None,
                last_start_tag_name_hash: bm.last_start_tag_name_hash,
                state_enter: true,
                allow_cdata: bm.allow_cdata,
                state: (match bm.text_parsing_mode {
                    crate::tag_name::TextParsingMode::Data => State::Data,
                    crate::tag_name::TextParsingMode::RawText => State::RawText,
                    crate::tag_name::TextParsingMode::RCData => State::RawText,
                }),
                closing_quote: old(self).core.closing_quote,
                text_parsing_mode: bm.text_parsing_mode,
            }),
    {
        self.core.continue_from_bookmark(bm)
    }

    pub fn set_state(&mut self, state: State)
        ensures
            final(self).core == (StateMachineCore { state, ..old(self).core }),
    {
        self.core.state = state;
    }

    pub fn get_state(&self) -> (r: State)
        ensures
            r == self.core.state,
    {
        self.core.state
    }

    pub fn get_input_cursor(&self) -> (r: usize)
        ensures
            r == self.core.input_cursor.pos,
    {
        self.core.input_cursor.pos
    }

    /// How many trailing bytes of the chunk must be retained for the next
    /// chunk because they belong to a tag whose end is not yet seen.
    pub fn get_blocked_byte_count(&self, input: &[u8]) -> (r: usize)
        requires
            self.core.wf(input@.len() as int),
            self.core.input_cursor.pos == input@.len(),
        ensures
            r == input@.len() - (match self.core.tag_start {
                Some(ts) => ts as int,
                None => 0int,
            }),
    {
        self.core.get_blocked_byte_count(input)
    }

    /// Re-bases all offsets onto the next chunk (a call with no open tag
    /// changes nothing); see `StateMachineCore::adjust_for_next_input`.
    pub fn adjust_for_next_input(&mut self)
        requires
            (match old(self).core.tag_start {
                Some(ts) => ts <= old(self).core.tag_name_start
                    <= old(self).core.input_cursor.pos,
                None => true,
            }),
        ensures
            final(self).core == (match old(self).core.tag_start {
                Some(ts) => StateMachineCore {
                    input_cursor: crate::cursor::Cursor {
                        pos: (old(self).core.input_cursor.pos - ts) as usize,
                    },
                    tag_name_start: (old(self).core.tag_name_start - ts) as usize,
                    tag_start: Some(0usize),
                    ..old(self).core
                },
                None => old(self).core,
            }),
    {
        self.core.adjust_for_next_input()
    }

    pub fn set_is_state_enter(&mut self, val: bool)
        ensures
            final(self).core == (StateMachineCore { state_enter: val, ..old(self).core }),
    {
        self.core.state_enter = val;
    }

    pub fn is_state_enter(&self) -> (r: bool)
        ensures
            r == self.core.state_enter,
    {
        self.core.state_enter
    }

    pub fn get_closing_quote(&self) -> (r: u8)
        ensures
            r == self.core.closing_quote,
    {
        self.core.closing_quote
    }

    pub fn set_last_start_tag_name_hash(&mut self, name_hash: Option<u64>)
        ensures
            final(self).core == (StateMachineCore {
                last_start_tag_name_hash: name_hash,
                ..old(self).core
            }),
    {
        self.core.last_start_tag_name_hash = name_hash;
    }
}

} // verus!
