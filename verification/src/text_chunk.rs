use vstd::prelude::*;

use crate::errors::ErrorKind;

verus! {

/// How inserted content is treated on emission: `Html` is inserted verbatim,
/// `Text` is escaped first.
#[derive(Clone, Copy, PartialEq, Eq, Structural, Debug)]
pub enum ContentType {
    Html,
    Text,
}

pub open spec fn is_html_content(t: ContentType) -> bool {
    t == ContentType::Html
}

/// The bytes that stand for one input byte after text escaping:
/// `&` becomes `&amp;`, `<` becomes `&lt;`, `>` becomes `&gt;`.
pub open spec fn escaped_byte(b: u8) -> Seq<u8> {
    if b == 38 {
        seq![38u8, 97u8, 109u8, 112u8, 59u8]
    } else if b == 60 {
        seq![38u8, 108u8, 116u8, 59u8]
    } else if b == 62 {
        seq![38u8, 103u8, 116u8, 59u8]
    } else {
        seq![b]
    }
}

/// Text content after escaping, byte for byte.
pub open spec fn escaped_text(s: Seq<u8>) -> Seq<u8>
    decreases s.len(),
{
    if s.len() == 0 {
        Seq::empty()
    } else {
        escaped_byte(s[0]) + escaped_text(s.subrange(1, s.len() as int))
    }
}

proof fn lemma_escaped_text_snoc(s: Seq<u8>, b: u8)
    ensures
        escaped_text(s.push(b)) == escaped_text(s) + escaped_byte(b),
    decreases s.len(),
{
    if s.len() == 0 {
        let single = s.push(b);
        assert(single[0] == b);
        assert(single.subrange(1, 1) =~= Seq::<u8>::empty());
        assert(escaped_text(single.subrange(1, 1)) == Seq::<u8>::empty());
        assert(escaped_text(single) == escaped_byte(b) + Seq::<u8>::empty());
        assert(escaped_byte(b) + Seq::<u8>::empty() =~= escaped_byte(b));
        assert(escaped_text(s) + escaped_byte(b) =~= escaped_byte(b));
    } else {
        let t = s.subrange(1, s.len() as int);
        lemma_escaped_text_snoc(t, b);
        assert(s.push(b).subrange(1, (s.len() + 1) as int) =~= t.push(b));
        assert(escaped_text(s.push(b)) =~= escaped_text(s) + escaped_byte(b));
    }
}

/// What one insertion contributes to the output: verbatim bytes for `Html`,
/// escaped bytes for `Text`.
pub open spec fn encoded_content(content: Seq<u8>, is_html: bool) -> Seq<u8> {
    if is_html {
        content
    } else {
        escaped_text(content)
    }
}

/// Escapes text content for emission.
pub fn escape_text_content(content: &[u8]) -> (out: Vec<u8>)
    ensures
        out@ == escaped_text(content@),
{
    let mut out: Vec<u8> = Vec::new();
    let mut i: usize = 0;
    while i < content.len()
        invariant
            i <= content.len(),
            out@ == escaped_text(content@.subrange(0, i as int)),
        decreases content.len() - i,
    {
        let b = content[i];
        if b == 38 {
            out.push(38);
            out.push(97);
            out.push(109);
            out.push(112);
            out.push(59);
        } else if b == 60 {
            out.push(38);
            out.push(108);
            out.push(116);
            out.push(59);
        } else if b == 62 {
            out.push(38);
            out.push(103);
            out.push(116);
            out.push(59);
        } else {
            out.push(b);
        }
        proof {
            let pre = content@.subrange(0, i as int);
            lemma_escaped_text_snoc(pre, b);
            assert(content@.subrange(0, (i + 1) as int) =~= pre.push(b));
            assert(out@ =~= escaped_text(pre) + escaped_byte(b));
        }
        i = i + 1;
    }
    proof {
        assert(content@.subrange(0, content@.len() as int) =~= content@);
    }
    out
}

/// Concatenation of a sequence of inserted parts, in issue order.
pub open spec fn flattened_parts(ps: Seq<Seq<u8>>) -> Seq<u8>
    decreases ps.len(),
{
    if ps.len() == 0 {
        Seq::empty()
    } else {
        ps[0] + flattened_parts(ps.subrange(1, ps.len() as int))
    }
}

pub proof fn lemma_flattened_parts_snoc(ps: Seq<Seq<u8>>, x: Seq<u8>)
    ensures
        flattened_parts(ps.push(x)) == flattened_parts(ps) + x,
    decreases ps.len(),
{
    if ps.len() == 0 {
        let single = ps.push(x);
        assert(single[0] == x);
        assert(single.subrange(1, 1) =~= Seq::<Seq<u8>>::empty());
        assert(flattened_parts(single.subrange(1, 1)) == Seq::<u8>::empty());
        assert(flattened_parts(single) == x + Seq::<u8>::empty());
        assert(x + Seq::<u8>::empty() =~= x);
        assert(flattened_parts(ps) + x =~= x);
    } else {
        let t = ps.subrange(1, ps.len() as int);
        lemma_flattened_parts_snoc(t, x);
        assert(ps.push(x).subrange(1, (ps.len() + 1) as int) =~= t.push(x));
        assert(flattened_parts(ps.push(x)) =~= flattened_parts(ps) + x);
    }
}

/// Mathematical model of a text chunk: the original content, the two ordered
/// insertion lists (already encoded for emission), and the flags that govern
/// emission.
#[verifier::ext_equal]
pub struct TextChunkModel {
    pub content: Seq<u8>,
    pub before_parts: Seq<Seq<u8>>,
    pub after_parts: Seq<Seq<u8>>,
    pub removed: bool,
    pub finalized: bool,
    pub last_in_text_node: bool,
}

/// The model after a `before` insertion.
pub open spec fn with_before(m: TextChunkModel, content: Seq<u8>, is_html: bool) -> TextChunkModel {
    TextChunkModel { before_parts: m.before_parts.push(encoded_content(content, is_html)), ..m }
}

/// The model after an `after` insertion.
pub open spec fn with_after(m: TextChunkModel, content: Seq<u8>, is_html: bool) -> TextChunkModel {
    TextChunkModel { after_parts: m.after_parts.push(encoded_content(content, is_html)), ..m }
}

/// The model after a `replace`: the original content is suppressed and the
/// replacement joins the trailing insertion list; it never overwrites an
/// earlier insertion.
pub open spec fn with_replace(m: TextChunkModel, content: Seq<u8>, is_html: bool) -> TextChunkModel {
    TextChunkModel {
        removed: true,
        after_parts: m.after_parts.push(encoded_content(content, is_html)),
        ..m
    }
}

/// The model after a `remove`.
pub open spec fn with_remove(m: TextChunkModel) -> TextChunkModel {
    TextChunkModel { removed: true, ..m }
}

/// Everything the chunk emits when flushed: the `before` insertions in issue
/// order, then the original content unless removed, then the `after`
/// insertions in issue order. Removal never suppresses queued insertions.
pub open spec fn emitted_output(m: TextChunkModel) -> Seq<u8> {
    flattened_parts(m.before_parts) + (if m.removed {
        Seq::<u8>::empty()
    } else {
        m.content
    }) + flattened_parts(m.after_parts)
}

/// One contiguous text run observed by the tokenizer, with the edits queued
/// against it. Once flushed it is finalized and rejects further mutation.
pub struct TextChunk {
    content: Vec<u8>,
    before_parts: Vec<Vec<u8>>,
    after_parts: Vec<Vec<u8>>,
    removed: bool,
    finalized: bool,
    last_in_text_node: bool,
}

impl View for TextChunk {
    type V = TextChunkModel;

    closed spec fn view(&self) -> TextChunkModel {
        TextChunkModel {
            content: self.content@,
            before_parts: self.before_parts.deep_view(),
            after_parts: self.after_parts.deep_view(),
            removed: self.removed,
            finalized: self.finalized,
            last_in_text_node: self.last_in_text_node,
        }
    }
}

impl TextChunk {
    /// A fresh chunk over one text run, with no edits queued.
    pub fn new(content: Vec<u8>, last_in_text_node: bool) -> (r: TextChunk)
        ensures
            r@.content == content@,
            r@.before_parts == Seq::<Seq<u8>>::empty(),
            r@.after_parts == Seq::<Seq<u8>>::empty(),
            !r@.removed,
            !r@.finalized,
            r@.last_in_text_node == last_in_text_node,
    {
        let r = TextChunk {
            content,
            before_parts: Vec::new(),
            after_parts: Vec::new(),
            removed: false,
            finalized: false,
            last_in_text_node,
        };
        proof {
            assert(r@.before_parts =~= Seq::<Seq<u8>>::empty());
            assert(r@.after_parts =~= Seq::<Seq<u8>>::empty());
        }
        r
    }

    /// The original content bytes of this run.
    pub fn as_bytes(&self) -> (r: &[u8])
        ensures
            r@ == self@.content,
    {
        self.content.as_slice()
    }

    /// Whether this chunk is the final text span before a tag or end of input.
    pub fn last_in_text_node(&self) -> (r: bool)
        ensures
            r == self@.last_in_text_node,
    {
        self.last_in_text_node
    }

    /// Whether the original content has been suppressed.
    pub fn removed(&self) -> (r: bool)
        ensures
            r == self@.removed,
    {
        self.removed
    }

    /// Whether the chunk has been flushed and rejects further mutation.
    pub fn finalized(&self) -> (r: bool)
        ensures
            r == self@.finalized,
    {
        self.finalized
    }

    fn encode(content: &[u8], content_type: ContentType) -> (out: Vec<u8>)
        ensures
            out@ == encoded_content(content@, is_html_content(content_type)),
    {
        match content_type {
            ContentType::Html => {
                let mut out: Vec<u8> = Vec::new();
                let mut i: usize = 0;
                while i < content.len()
                    invariant
                        i <= content.len(),
                        out@ == content@.subrange(0, i as int),
                    decreases content.len() - i,
                {
                    out.push(content[i]);
                    proof {
                        assert(out@ =~= content@.subrange(0, (i + 1) as int));
                    }
                    i = i + 1;
                }
                proof {
                    assert(out@ =~= content@);
                }
                out
            },
            ContentType::Text => escape_text_content(content),
        }
    }

    /// Queues content to be emitted immediately before this chunk's original
    /// content. Fails on a finalized chunk and then changes nothing.
    pub fn before(&mut self, content: &[u8], content_type: ContentType) -> (r: Result<
        (),
        ErrorKind,
    >)
        ensures
            old(self)@.finalized ==> r == Result::<(), ErrorKind>::Err(ErrorKind::BoundaryMisuse)
                && final(self)@ == old(self)@,
            !old(self)@.finalized ==> r == Result::<(), ErrorKind>::Ok(()) && final(self)@
                == with_before(old(self)@, content@, is_html_content(content_type)),
    {
        if self.finalized {
            return Err(ErrorKind::BoundaryMisuse);
        }
        let encoded = Self::encode(content, content_type);
        self.before_parts.push(encoded);
        proof {
            assert(self@ =~~= with_before(old(self)@, content@, is_html_content(content_type)));
        }
        Ok(())
    }

    /// Queues content to be emitted immediately after this chunk's original
    /// content. Fails on a finalized chunk and then changes nothing.
    pub fn after(&mut self, content: &[u8], content_type: ContentType) -> (r: Result<
        (),
        ErrorKind,
    >)
        ensures
            old(self)@.finalized ==> r == Result::<(), ErrorKind>::Err(ErrorKind::BoundaryMisuse)
                && final(self)@ == old(self)@,
            !old(self)@.finalized ==> r == Result::<(), ErrorKind>::Ok(()) && final(self)@
                == with_after(old(self)@, content@, is_html_content(content_type)),
    {
        if self.finalized {
            return Err(ErrorKind::BoundaryMisuse);
        }
        let encoded = Self::encode(content, content_type);
        self.after_parts.push(encoded);
        proof {
            assert(self@ =~~= with_after(old(self)@, content@, is_html_content(content_type)));
        }
        Ok(())
    }

    /// Suppresses the original content and queues the replacement after any
    /// content already queued there; repeated calls accumulate in issue order.
    /// Fails on a finalized chunk and then changes nothing.
    pub fn replace(&mut self, content: &[u8], content_type: ContentType) -> (r: Result<
        (),
        ErrorKind,
    >)
        ensures
            old(self)@.finalized ==> r == Result::<(), ErrorKind>::Err(ErrorKind::BoundaryMisuse)
                && final(self)@ == old(self)@,
            !old(self)@.finalized ==> r == Result::<(), ErrorKind>::Ok(()) && final(self)@
                == with_replace(old(self)@, content@, is_html_content(content_type)),
    {
        if self.finalized {
            return Err(ErrorKind::BoundaryMisuse);
        }
        let encoded = Self::encode(content, content_type);
        self.after_parts.push(encoded);
        self.removed = true;
        proof {
            assert(self@ =~~= with_replace(old(self)@, content@, is_html_content(content_type)));
        }
        Ok(())
    }

    /// Suppresses emission of the original content; queued insertions are
    /// unaffected. On a finalized chunk this changes nothing.
    pub fn remove(&mut self)
        ensures
            old(self)@.finalized ==> final(self)@ == old(self)@,
            !old(self)@.finalized ==> final(self)@ == with_remove(old(self)@),
    {
        if !self.finalized {
            self.removed = true;
            proof {
                assert(self@ =~~= with_remove(old(self)@));
            }
        }
    }

    fn append_slice(out: &mut Vec<u8>, src: &[u8])
        ensures
            final(out)@ == old(out)@ + src@,
    {
        let mut i: usize = 0;
        while i < src.len()
            invariant
                i <= src.len(),
                out@ == old(out)@ + src@.subrange(0, i as int),
            decreases src.len() - i,
        {
            out.push(src[i]);
            proof {
                assert(out@ =~= old(out)@ + src@.subrange(0, (i + 1) as int));
            }
            i = i + 1;
        }
        proof {
            assert(old(out)@ + src@.subrange(0, src@.len() as int) =~= old(out)@ + src@);
        }
    }

    fn append_parts(out: &mut Vec<u8>, parts: &Vec<Vec<u8>>)
        ensures
            final(out)@ == old(out)@ + flattened_parts(parts.deep_view()),
    {
        let mut i: usize = 0;
        while i < parts.len()
            invariant
                i <= parts.len(),
                out@ == old(out)@ + flattened_parts(parts.deep_view().subrange(0, i as int)),
            decreases parts.len() - i,
        {
            proof {
                let pre = parts.deep_view().subrange(0, i as int);
                lemma_flattened_parts_snoc(pre, parts.deep_view()[i as int]);
                assert(parts.deep_view().subrange(0, (i + 1) as int) =~= pre.push(
                    parts.deep_view()[i as int],
                ));
            }
            Self::append_slice(out, parts[i].as_slice());
            proof {
                assert(parts[i as int]@ == parts.deep_view()[i as int]);
                assert(out@ =~= old(out)@ + flattened_parts(
                    parts.deep_view().subrange(0, (i + 1) as int),
                ));
            }
            i = i + 1;
        }
        proof {
            assert(parts.deep_view().subrange(0, parts.deep_view().len() as int) =~= parts.deep_view());
        }
    }

    /// Flushes the chunk: returns everything it emits, in order, and marks it
    /// finalized so later mutation is rejected.
    pub fn flush(&mut self) -> (out: Vec<u8>)
        requires
            !old(self)@.finalized,
        ensures
            out@ == emitted_output(old(self)@),
            final(self)@ == (TextChunkModel { finalized: true, ..old(self)@ }),
    {
        let mut out: Vec<u8> = Vec::new();
        Self::append_parts(&mut out, &self.before_parts);
        if !self.removed {
            Self::append_slice(&mut out, self.content.as_slice());
        }
        Self::append_parts(&mut out, &self.after_parts);
        self.finalized = true;
        proof {
            assert(out@ =~= emitted_output(old(self)@));
            assert(self@ =~~= (TextChunkModel { finalized: true, ..old(self)@ }));
        }
        out
    }
}

/// Law: on a chunk with no prior insertions, two `before` insertions precede
/// the original content in issue order and two `after` insertions follow it,
/// whether or not the chunk is removed, and removal commutes with the
/// insertions while suppressing only the original content.
pub proof fn lemma_insertion_ordering(
    m: TextChunkModel,
    a: Seq<u8>,
    b: Seq<u8>,
    c: Seq<u8>,
    d: Seq<u8>,
)
    requires
        m.before_parts.len() == 0,
        m.after_parts.len() == 0,
    ensures
        ({
            let queued = with_after(with_after(with_before(with_before(m, a, true), b, true), c, true), d, true);
            &&& (!m.removed ==> emitted_output(queued) == a + b + m.content + c + d)
            &&& emitted_output(with_remove(queued)) == a + b + c + d
            &&& with_remove(queued) == with_after(
                with_after(with_before(with_before(with_remove(m), a, true), b, true), c, true),
                d,
                true,
            )
        }),
{
    let queued = with_after(with_after(with_before(with_before(m, a, true), b, true), c, true), d, true);
    lemma_flattened_parts_snoc(m.before_parts, a);
    lemma_flattened_parts_snoc(m.before_parts.push(a), b);
    lemma_flattened_parts_snoc(m.after_parts, c);
    lemma_flattened_parts_snoc(m.after_parts.push(c), d);
    assert(flattened_parts(m.before_parts) =~= Seq::<u8>::empty());
    assert(flattened_parts(m.after_parts) =~= Seq::<u8>::empty());
    assert(flattened_parts(queued.before_parts) =~= a + b);
    assert(flattened_parts(queued.after_parts) =~= c + d);
    if !m.removed {
        assert(emitted_output(queued) =~= a + b + m.content + c + d);
    }
    assert(emitted_output(with_remove(queued)) =~= a + b + c + d);
    assert(with_remove(queued) =~= with_after(
        with_after(with_before(with_before(with_remove(m), a, true), b, true), c, true),
        d,
        true,
    ));
}

/// Law: two `replace` calls compose; both replacements are retained in issue
/// order after any insertions already queued, and the original content is
/// suppressed. A `replace` never overwrites a prior `replace`.
pub proof fn lemma_replace_composition(m: TextChunkModel, p: Seq<u8>, q: Seq<u8>)
    ensures
        ({
            let twice = with_replace(with_replace(m, p, true), q, true);
            &&& twice.removed
            &&& emitted_output(twice) == flattened_parts(m.before_parts) + flattened_parts(
                m.after_parts,
            ) + p + q
        }),
{
    let twice = with_replace(with_replace(m, p, true), q, true);
    lemma_flattened_parts_snoc(m.after_parts, p);
    lemma_flattened_parts_snoc(m.after_parts.push(p), q);
    assert(emitted_output(twice) =~= flattened_parts(m.before_parts) + flattened_parts(
        m.after_parts,
    ) + p + q);
}

} // verus!
