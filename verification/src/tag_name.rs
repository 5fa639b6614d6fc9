use vstd::prelude::*;

verus! {

/// The modulus of the 64-bit tag-name hash.
pub open spec fn hash_modulus() -> int {
    0x1_0000_0000_0000_0000
}

/// ASCII upper-case letters fold to lower case before hashing, so tag names
/// match case-insensitively.
pub open spec fn folded_byte(b: u8) -> u8 {
    if 65 <= b && b <= 90 {
        (b + 32) as u8
    } else {
        b
    }
}

/// One step of the rolling tag-name hash. Distinct names can collide; a
/// collision is an accepted approximation of name equality.
pub open spec fn hash_updated(h: u64, b: u8) -> u64 {
    (((h as int) * 31 + (folded_byte(b) as int)) % hash_modulus()) as u64
}

/// The hash of a whole tag name.
pub open spec fn name_hash_of(s: Seq<u8>) -> u64
    decreases s.len(),
{
    if s.len() == 0 {
        0
    } else {
        hash_updated(name_hash_of(s.drop_last()), s.last())
    }
}

/// Case folding of one name byte.
pub fn fold_byte(b: u8) -> (r: u8)
    ensures
        r == folded_byte(b),
{
    if 65 <= b && b <= 90 {
        b + 32
    } else {
        b
    }
}

/// One step of the rolling tag-name hash.
pub fn update_hash(h: u64, b: u8) -> (r: u64)
    ensures
        r == hash_updated(h, b),
{
    let wide: u128 = (h as u128) * 31 + (fold_byte(b) as u128);
    let reduced: u128 = wide % 0x1_0000_0000_0000_0000u128;
    proof {
        assert(reduced < 0x1_0000_0000_0000_0000u128);
    }
    reduced as u64
}

/// The hash of a whole tag name.
pub fn tag_name_hash_of(name: &[u8]) -> (r: u64)
    ensures
        r == name_hash_of(name@),
{
    let mut h: u64 = 0;
    let mut i: usize = 0;
    while i < name.len()
        invariant
            i <= name.len(),
            h == name_hash_of(name@.subrange(0, i as int)),
        decreases name.len() - i,
    {
        proof {
            let pre = name@.subrange(0, i as int);
            assert(name@.subrange(0, (i + 1) as int).drop_last() =~= pre);
            assert(name@.subrange(0, (i + 1) as int).last() == name@[i as int]);
        }
        h = update_hash(h, name[i]);
        i = i + 1;
    }
    proof {
        assert(name@.subrange(0, name@.len() as int) =~= name@);
    }
    h
}

/// How the body of an element is tokenized: `Data` recognizes markup;
/// `RawText` and `RCData` suppress it until the matching end tag.
#[derive(Clone, Copy, PartialEq, Eq, Structural, Debug)]
pub enum TextParsingMode {
    Data,
    RawText,
    RCData,
}

pub open spec fn script_name() -> Seq<u8> {
    seq![115u8, 99u8, 114u8, 105u8, 112u8, 116u8]
}

pub open spec fn style_name() -> Seq<u8> {
    seq![115u8, 116u8, 121u8, 108u8, 101u8]
}

pub open spec fn textarea_name() -> Seq<u8> {
    seq![116u8, 101u8, 120u8, 116u8, 97u8, 114u8, 101u8, 97u8]
}

pub open spec fn title_name() -> Seq<u8> {
    seq![116u8, 105u8, 116u8, 108u8, 101u8]
}

pub open spec fn svg_name() -> Seq<u8> {
    seq![115u8, 118u8, 103u8]
}

pub open spec fn math_name() -> Seq<u8> {
    seq![109u8, 97u8, 116u8, 104u8]
}

/// The text-parsing mode that the body of an element with this name hash
/// requires: raw text for script and style, RCData for textarea and title.
pub open spec fn policy_of(h: u64) -> TextParsingMode {
    if h == name_hash_of(script_name()) || h == name_hash_of(style_name()) {
        TextParsingMode::RawText
    } else if h == name_hash_of(textarea_name()) || h == name_hash_of(title_name()) {
        TextParsingMode::RCData
    } else {
        TextParsingMode::Data
    }
}

/// Whether an element with this name hash opens a foreign-content region in
/// which CDATA sections are permitted.
pub open spec fn is_foreign(h: u64) -> bool {
    h == name_hash_of(svg_name()) || h == name_hash_of(math_name())
}

fn hash_of_named(name: &Vec<u8>) -> (r: u64)
    ensures
        r == name_hash_of(name@),
{
    tag_name_hash_of(name.as_slice())
}

/// The text-parsing mode required by an element with this name hash.
pub fn policy_for(h: u64) -> (r: TextParsingMode)
    ensures
        r == policy_of(h),
{
    let script: Vec<u8> = vec![115u8, 99u8, 114u8, 105u8, 112u8, 116u8];
    let style: Vec<u8> = vec![115u8, 116u8, 121u8, 108u8, 101u8];
    let textarea: Vec<u8> = vec![116u8, 101u8, 120u8, 116u8, 97u8, 114u8, 101u8, 97u8];
    let title: Vec<u8> = vec![116u8, 105u8, 116u8, 108u8, 101u8];
    proof {
        assert(script@ =~= script_name());
        assert(style@ =~= style_name());
        assert(textarea@ =~= textarea_name());
        assert(title@ =~= title_name());
    }
    if h == hash_of_named(&script) || h == hash_of_named(&style) {
        TextParsingMode::RawText
    } else if h == hash_of_named(&textarea) || h == hash_of_named(&title) {
        TextParsingMode::RCData
    } else {
        TextParsingMode::Data
    }
}

/// Whether an element with this name hash opens a foreign-content region.
pub fn foreign_for(h: u64) -> (r: bool)
    ensures
        r == is_foreign(h),
{
    let svg: Vec<u8> = vec![115u8, 118u8, 103u8];
    let math: Vec<u8> = vec![109u8, 97u8, 116u8, 104u8];
    proof {
        assert(svg@ =~= svg_name());
        assert(math@ =~= math_name());
    }
    h == hash_of_named(&svg) || h == hash_of_named(&math)
}

} // verus!
