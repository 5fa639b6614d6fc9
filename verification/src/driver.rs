use vstd::prelude::*;

use crate::machine::{initial_core, StateMachineCore};
use crate::state_machine::{lemma_chunking_invariance, scan, MachineModel, Token};
use crate::tree_builder_simulator::TreeBuilderSimulator;

verus! {

/// The model state every stream starts in: no open tag candidate, no open
/// elements.
pub open spec fn stream_start_model() -> MachineModel {
    initial_core().model(Seq::empty(), Seq::empty())
}

/// The driving loop for whole-stream tokenization: it feeds each incoming
/// chunk to the machine, retains the blocked tail of a tag that spans a
/// chunk boundary, and re-bases the machine's offsets before the next chunk.
///
/// Its invariant ties everything to the pure model: after any sequence of
/// `write` calls, `tokens` is exactly the scan of all bytes consumed so far
/// — so the output does not depend on how the stream was split into chunks.
pub struct TokenizerDriver {
    pub core: StateMachineCore,
    pub sim: TreeBuilderSimulator,
    pub tokens: Vec<Token>,
    pub buffer: Vec<u8>,
    pub consumed: Ghost<Seq<u8>>,
    pub ended: bool,
}

impl TokenizerDriver {
    /// The driver's invariant: the retained buffer is exactly the open tag
    /// candidate (re-based to offset zero), and machine, stack and tokens
    /// agree with the scan of everything consumed.
    pub open spec fn wf(&self) -> bool {
        &&& self.core.wf(self.buffer@.len() as int)
        &&& self.core.input_cursor.pos == self.buffer@.len()
        &&& (match self.core.tag_start {
            Some(ts) => ts == 0,
            None => self.buffer@.len() == 0,
        })
        &&& self.core.model(self.buffer@, self.sim@) == scan(stream_start_model(), self.consumed@).0
        &&& self.tokens@ == scan(stream_start_model(), self.consumed@).1
    }

    /// A driver for a fresh stream.
    pub fn new() -> (r: TokenizerDriver)
        ensures
            r.wf(),
            r.consumed@ == Seq::<u8>::empty(),
            r.tokens@ == Seq::<Token>::empty(),
            !r.ended,
    {
        let r = TokenizerDriver {
            core: StateMachineCore::new(),
            sim: TreeBuilderSimulator::new(),
            tokens: Vec::new(),
            buffer: Vec::new(),
            consumed: Ghost(Seq::empty()),
            ended: false,
        };
        proof {
            assert(r.core.model(r.buffer@, r.sim@) =~~= stream_start_model());
            assert(scan(stream_start_model(), Seq::<u8>::empty()).1 =~= Seq::<Token>::empty());
        }
        r
    }

    /// Feeds the next chunk of the stream. Afterwards `tokens` holds the
    /// scan of every byte written so far, independent of chunking.
    pub fn write(&mut self, chunk: &[u8])
        requires
            old(self).wf(),
            !old(self).ended,
        ensures
            final(self).wf(),
            !final(self).ended,
            final(self).consumed@ == old(self).consumed@ + chunk@,
            final(self).tokens@ == scan(stream_start_model(), old(self).consumed@ + chunk@).1,
    {
        let ghost oldbuf = self.buffer@;
        let ghost oldcore = self.core;
        let ghost oldsim = self.sim@;
        let ghost oldtokens = self.tokens@;
        let mut i: usize = 0;
        proof {
            assert(oldbuf + chunk@.subrange(0, 0) =~= oldbuf);
        }
        while i < chunk.len()
            invariant
                i <= chunk.len(),
                self.buffer@ == oldbuf + chunk@.subrange(0, i as int),
                self.core == oldcore,
                self.sim@ == oldsim,
                self.tokens@ == oldtokens,
                self.consumed == old(self).consumed,
                self.ended == old(self).ended,
            decreases chunk.len() - i,
        {
            self.buffer.push(chunk[i]);
            proof {
                assert(oldbuf + chunk@.subrange(0, (i + 1) as int) =~= (oldbuf + chunk@.subrange(
                    0,
                    i as int,
                )).push(chunk@[i as int]));
            }
            i = i + 1;
        }
        proof {
            assert(self.buffer@ =~= oldbuf + chunk@);
            // the machine's model is unchanged by appending unseen bytes:
            // the open candidate is a prefix-region of the old buffer
            if let Some(ts) = self.core.tag_start {
                assert(self.buffer@.subrange(ts as int, self.core.input_cursor.pos as int)
                    =~= oldbuf.subrange(ts as int, self.core.input_cursor.pos as int));
            }
            assert(self.core.model(self.buffer@, self.sim@) =~~= oldcore.model(oldbuf, oldsim));
        }
        let ghost pre_model = self.core.model(self.buffer@, self.sim@);
        let ghost run_start = self.core.input_cursor.pos as int;
        self.core.run_captured(self.buffer.as_slice(), &mut self.sim, &mut self.tokens);
        proof {
            assert(self.buffer@.subrange(run_start, self.buffer@.len() as int) =~= chunk@);
            lemma_chunking_invariance(stream_start_model(), old(self).consumed@, chunk@);
            assert(self.tokens@ =~= scan(stream_start_model(), old(self).consumed@ + chunk@).1);
            assert(self.core.model(self.buffer@, self.sim@) == scan(
                stream_start_model(),
                old(self).consumed@ + chunk@,
            ).0);
        }
        self.consumed = Ghost(self.consumed@ + chunk@);
        let ghost fullbuf = self.buffer@;
        let ghost postcore = self.core;
        let ghost postsim = self.sim@;
        match self.core.tag_start {
            Some(ts) => {
                let blocked = self.core.get_blocked_byte_count(self.buffer.as_slice());
                let mut tail: Vec<u8> = Vec::new();
                let mut j: usize = self.buffer.len() - blocked;
                proof {
                    assert(j == ts);
                    assert(tail@ =~= fullbuf.subrange(ts as int, ts as int));
                }
                while j < self.buffer.len()
                    invariant
                        ts <= j <= self.buffer@.len(),
                        self.buffer@ == fullbuf,
                        tail@ == fullbuf.subrange(ts as int, j as int),
                        self.core == postcore,
                        self.sim@ == postsim,
                        ts == (match postcore.tag_start {
                            Some(t) => t as int,
                            None => -1int,
                        }),
                    decreases self.buffer@.len() - j,
                {
                    tail.push(self.buffer[j]);
                    proof {
                        assert(fullbuf.subrange(ts as int, (j + 1) as int) =~= fullbuf.subrange(
                            ts as int,
                            j as int,
                        ).push(fullbuf[j as int]));
                    }
                    j = j + 1;
                }
                self.core.adjust_for_next_input();
                self.buffer = tail;
                proof {
                    assert(self.buffer@ =~= fullbuf.subrange(ts as int, fullbuf.len() as int));
                    assert(self.buffer@.subrange(0, self.buffer@.len() as int) =~= self.buffer@);
                    assert(self.core.model(self.buffer@, self.sim@) =~~= postcore.model(
                        fullbuf,
                        postsim,
                    ));
                }
            },
            None => {
                // the re-basing call changes nothing with no open tag; the
                // driver retains nothing and starts the next chunk in a
                // fresh buffer
                self.core.adjust_for_next_input();
                self.core.input_cursor.pos = 0;
                self.core.tag_name_start = 0;
                self.buffer.truncate(0);
                proof {
                    assert(self.buffer@ =~= Seq::<u8>::empty());
                    assert(self.core.model(self.buffer@, self.sim@) =~~= postcore.model(
                        fullbuf,
                        postsim,
                    ));
                }
            },
        }
    }

    /// Ends the stream. No further chunks may be written; bytes of an
    /// unterminated tag candidate are not flushed, as an unterminated tag
    /// produces no output.
    pub fn end(&mut self)
        ensures
            *final(self) == (TokenizerDriver { ended: true, ..*old(self) }),
    {
        self.ended = true;
    }
}

} // verus!
