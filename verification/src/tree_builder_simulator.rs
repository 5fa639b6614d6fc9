use vstd::prelude::*;

use crate::tag_name::{is_foreign, policy_of, foreign_for, policy_for, TextParsingMode};

verus! {

/// The open-element stack after a stray-tolerant end tag: entries are popped
/// from the top through the closest entry with a matching name hash; a stray
/// end tag with no match anywhere leaves the stack unchanged.
pub open spec fn stack_after_end_tag(s: Seq<u64>, h: u64) -> Seq<u64>
    decreases s.len(),
{
    if !s.contains(h) {
        s
    } else if s.last() == h {
        s.drop_last()
    } else {
        stack_after_end_tag(s.drop_last(), h)
    }
}

/// Whether the top of the open-element stack permits CDATA-like content.
pub open spec fn cdata_allowed_for(s: Seq<u64>) -> bool {
    s.len() > 0 && is_foreign(s.last())
}

/// The text-parsing mode demanded by the element on top of the stack.
pub open spec fn policy_of_stack(s: Seq<u64>) -> TextParsingMode {
    if s.len() == 0 {
        TextParsingMode::Data
    } else {
        policy_of(s.last())
    }
}

proof fn lemma_stack_truncation(s: Seq<u64>, h: u64, i: int)
    requires
        0 <= i < s.len(),
        s[i] == h,
        forall|j: int| i < j < s.len() ==> s[j] != h,
    ensures
        stack_after_end_tag(s, h) == s.subrange(0, i),
    decreases s.len(),
{
    assert(s.contains(h));
    if i == s.len() - 1 {
        assert(s.last() == h);
        assert(s.drop_last() =~= s.subrange(0, i));
    } else {
        assert(s.last() != h);
        let t = s.drop_last();
        assert(t[i] == h);
        assert(forall|j: int| i < j < t.len() ==> t[j] != h);
        lemma_stack_truncation(t, h, i);
        assert(t.subrange(0, i) =~= s.subrange(0, i));
    }
}

proof fn lemma_stack_unchanged(s: Seq<u64>, h: u64)
    requires
        forall|j: int| 0 <= j < s.len() ==> s[j] != h,
    ensures
        stack_after_end_tag(s, h) == s,
{
    if s.contains(h) {
        let w = choose|j: int| 0 <= j < s.len() && s[j] == h;
        assert(s[w] != h);
    }
}

/// A reduced model of the HTML open-element stack: it tracks the name hashes
/// of not-yet-closed start tags, enough to decide raw-text and
/// foreign-content status. It is not a conformant tree builder.
pub struct TreeBuilderSimulator {
    open_element_stack: Vec<u64>,
}

impl View for TreeBuilderSimulator {
    type V = Seq<u64>;

    closed spec fn view(&self) -> Seq<u64> {
        self.open_element_stack@
    }
}

impl TreeBuilderSimulator {
    /// A simulator with no open elements.
    pub fn new() -> (r: TreeBuilderSimulator)
        ensures
            r@ == Seq::<u64>::empty(),
    {
        let r = TreeBuilderSimulator { open_element_stack: Vec::new() };
        proof {
            assert(r@ =~= Seq::<u64>::empty());
        }
        r
    }

    /// Records a start tag: the element is pushed unless it closed itself.
    pub fn notify_start_tag(&mut self, name_hash: u64, self_closing: bool)
        ensures
            final(self)@ == (if self_closing {
                old(self)@
            } else {
                old(self)@.push(name_hash)
            }),
    {
        if !self_closing {
            self.open_element_stack.push(name_hash);
        }
    }

    /// Records an end tag: pops through the closest matching open element,
    /// closing intervening unmatched entries; a stray end tag is ignored.
    pub fn notify_end_tag(&mut self, name_hash: u64)
        ensures
            final(self)@ == stack_after_end_tag(old(self)@, name_hash),
    {
        let n = self.open_element_stack.len();
        let mut i: usize = n;
        while i > 0
            invariant
                i <= n,
                n == self.open_element_stack.len(),
                self@ == old(self)@,
                forall|j: int| i <= j < n ==> self@[j] != name_hash,
            decreases i,
        {
            i = i - 1;
            if self.open_element_stack[i] == name_hash {
                self.open_element_stack.truncate(i);
                proof {
                    lemma_stack_truncation(old(self)@, name_hash, i as int);
                    assert(final(self)@ =~= old(self)@.subrange(0, i as int));
                }
                return ;
            }
        }
        proof {
            lemma_stack_unchanged(old(self)@, name_hash);
        }
    }

    /// The text-parsing mode required for content that follows the
    /// currently active tag.
    pub fn current_raw_text_policy(&self) -> (r: TextParsingMode)
        ensures
            r == policy_of_stack(self@),
    {
        if self.open_element_stack.len() == 0 {
            TextParsingMode::Data
        } else {
            let top = self.open_element_stack[self.open_element_stack.len() - 1];
            proof {
                assert(top == self@.last());
            }
            policy_for(top)
        }
    }

    /// Whether CDATA-like content is currently permitted.
    pub fn cdata_allowed(&self) -> (r: bool)
        ensures
            r == cdata_allowed_for(self@),
    {
        if self.open_element_stack.len() == 0 {
            false
        } else {
            let top = self.open_element_stack[self.open_element_stack.len() - 1];
            proof {
                assert(top == self@.last());
            }
            foreign_for(top)
        }
    }

    /// The number of open elements.
    pub fn depth(&self) -> (r: usize)
        ensures
            r == self@.len(),
    {
        self.open_element_stack.len()
    }
}

} // verus!
