use vstd::prelude::*;

verus! {

/// A UTF-8 continuation byte.
pub open spec fn is_continuation_byte(b: u8) -> bool {
    128 <= b && b <= 191
}

/// Whether the bytes are a well-formed UTF-8 sequence: shortest-form
/// encodings only, no surrogate code points, nothing above the last code
/// point. Text content handed to the boundary layer must satisfy this before
/// it is escaped.
pub open spec fn is_valid_utf8(s: Seq<u8>) -> bool
    decreases s.len(),
{
    if s.len() == 0 {
        true
    } else {
        let b0 = s[0];
        if b0 < 128 {
            is_valid_utf8(s.subrange(1, s.len() as int))
        } else if 194 <= b0 && b0 <= 223 {
            s.len() >= 2 && is_continuation_byte(s[1]) && is_valid_utf8(
                s.subrange(2, s.len() as int),
            )
        } else if b0 == 224 {
            s.len() >= 3 && 160 <= s[1] && s[1] <= 191 && is_continuation_byte(s[2])
                && is_valid_utf8(s.subrange(3, s.len() as int))
        } else if b0 == 237 {
            s.len() >= 3 && 128 <= s[1] && s[1] <= 159 && is_continuation_byte(s[2])
                && is_valid_utf8(s.subrange(3, s.len() as int))
        } else if 225 <= b0 && b0 <= 239 {
            s.len() >= 3 && is_continuation_byte(s[1]) && is_continuation_byte(s[2])
                && is_valid_utf8(s.subrange(3, s.len() as int))
        } else if b0 == 240 {
            s.len() >= 4 && 144 <= s[1] && s[1] <= 191 && is_continuation_byte(s[2])
                && is_continuation_byte(s[3]) && is_valid_utf8(s.subrange(4, s.len() as int))
        } else if 241 <= b0 && b0 <= 243 {
            s.len() >= 4 && is_continuation_byte(s[1]) && is_continuation_byte(s[2])
                && is_continuation_byte(s[3]) && is_valid_utf8(s.subrange(4, s.len() as int))
        } else if b0 == 244 {
            s.len() >= 4 && 128 <= s[1] && s[1] <= 143 && is_continuation_byte(s[2])
                && is_continuation_byte(s[3]) && is_valid_utf8(s.subrange(4, s.len() as int))
        } else {
            false
        }
    }
}

/// Checks that the bytes are well-formed UTF-8.
pub fn validate_utf8(s: &[u8]) -> (r: bool)
    ensures
        r == is_valid_utf8(s@),
{
    let n = s.len();
    let mut i: usize = 0;
    proof {
        assert(s@.subrange(0, n as int) =~= s@);
    }
    while i < n
        invariant
            i <= n,
            n == s@.len(),
            is_valid_utf8(s@) == is_valid_utf8(s@.subrange(i as int, n as int)),
        decreases n - i,
    {
        let ghost tail = s@.subrange(i as int, n as int);
        let b0 = s[i];
        proof {
            assert(tail[0] == b0);
            assert(tail.len() == n - i);
        }
        if b0 < 128 {
            proof {
                assert(tail.subrange(1, tail.len() as int) =~= s@.subrange(
                    (i + 1) as int,
                    n as int,
                ));
            }
            i = i + 1;
        } else if b0 < 194 {
            // a stray continuation byte or an overlong two-byte lead
            return false;
        } else if b0 <= 223 {
            if n - i < 2 {
                return false;
            }
            let b1 = s[i + 1];
            proof {
                assert(tail[1] == b1);
            }
            if !(128 <= b1 && b1 <= 191) {
                return false;
            }
            proof {
                assert(tail.subrange(2, tail.len() as int) =~= s@.subrange(
                    (i + 2) as int,
                    n as int,
                ));
            }
            i = i + 2;
        } else if b0 <= 239 {
            if n - i < 3 {
                return false;
            }
            let b1 = s[i + 1];
            let b2 = s[i + 2];
            proof {
                assert(tail[1] == b1);
                assert(tail[2] == b2);
            }
            let lo: u8 = if b0 == 224 {
                160
            } else {
                128
            };
            let hi: u8 = if b0 == 237 {
                159
            } else {
                191
            };
            if !(lo <= b1 && b1 <= hi) {
                return false;
            }
            if !(128 <= b2 && b2 <= 191) {
                return false;
            }
            proof {
                assert(tail.subrange(3, tail.len() as int) =~= s@.subrange(
                    (i + 3) as int,
                    n as int,
                ));
            }
            i = i + 3;
        } else if b0 <= 244 {
            if n - i < 4 {
                return false;
            }
            let b1 = s[i + 1];
            let b2 = s[i + 2];
            let b3 = s[i + 3];
            proof {
                assert(tail[1] == b1);
                assert(tail[2] == b2);
                assert(tail[3] == b3);
            }
            let lo: u8 = if b0 == 240 {
                144
            } else {
                128
            };
            let hi: u8 = if b0 == 244 {
                143
            } else {
                191
            };
            if !(lo <= b1 && b1 <= hi) {
                return false;
            }
            if !(128 <= b2 && b2 <= 191) {
                return false;
            }
            if !(128 <= b3 && b3 <= 191) {
                return false;
            }
            proof {
                assert(tail.subrange(4, tail.len() as int) =~= s@.subrange(
                    (i + 4) as int,
                    n as int,
                ));
            }
            i = i + 4;
        } else {
            // beyond the last code point
            return false;
        }
    }
    proof {
        assert(s@.subrange(n as int, n as int) =~= Seq::<u8>::empty());
    }
    true
}

} // verus!
