//! UTF-8 validity: the acceptance test applied to every request body.
//!
//! A command is forwarded to the child process only if its bytes form valid
//! UTF-8 text. `is_valid_utf8` states validity over a byte sequence;
//! `validate_utf8` decides it executably.

use vstd::prelude::*;

verus! {

/// A continuation byte: the second and later bytes of a multi-byte sequence.
pub open spec fn is_utf8_cont(b: u8) -> bool {
    0x80 <= b && b <= 0xBF
}

/// The width of a well-formed UTF-8 sequence starting at the front of `s`,
/// or `None` if the front of `s` starts no well-formed sequence.
///
/// The ranges follow the UTF-8 definition: no overlong encodings
/// (hence the lower bounds on the second byte after 0xE0 and 0xF0 and the
/// exclusion of 0xC0 and 0xC1), no surrogates (the 0xED row), and nothing
/// above U+10FFFF (the 0xF4 row and the exclusion of 0xF5 and up).
pub open spec fn utf8_step(s: Seq<u8>) -> Option<int> {
    if s.len() == 0 {
        None
    } else {
        let b0 = s[0];
        if b0 < 0x80 {
            Some(1)
        } else if 0xC2 <= b0 && b0 <= 0xDF {
            if s.len() >= 2 && is_utf8_cont(s[1]) {
                Some(2)
            } else {
                None
            }
        } else if b0 == 0xE0 {
            if s.len() >= 3 && 0xA0 <= s[1] && s[1] <= 0xBF && is_utf8_cont(s[2]) {
                Some(3)
            } else {
                None
            }
        } else if 0xE1 <= b0 && b0 <= 0xEC {
            if s.len() >= 3 && is_utf8_cont(s[1]) && is_utf8_cont(s[2]) {
                Some(3)
            } else {
                None
            }
        } else if b0 == 0xED {
            if s.len() >= 3 && 0x80 <= s[1] && s[1] <= 0x9F && is_utf8_cont(s[2]) {
                Some(3)
            } else {
                None
            }
        } else if 0xEE <= b0 && b0 <= 0xEF {
            if s.len() >= 3 && is_utf8_cont(s[1]) && is_utf8_cont(s[2]) {
                Some(3)
            } else {
                None
            }
        } else if b0 == 0xF0 {
            if s.len() >= 4 && 0x90 <= s[1] && s[1] <= 0xBF && is_utf8_cont(s[2])
                && is_utf8_cont(s[3]) {
                Some(4)
            } else {
                None
            }
        } else if 0xF1 <= b0 && b0 <= 0xF3 {
            if s.len() >= 4 && is_utf8_cont(s[1]) && is_utf8_cont(s[2]) && is_utf8_cont(s[3]) {
                Some(4)
            } else {
                None
            }
        } else if b0 == 0xF4 {
            if s.len() >= 4 && 0x80 <= s[1] && s[1] <= 0x8F && is_utf8_cont(s[2])
                && is_utf8_cont(s[3]) {
                Some(4)
            } else {
                None
            }
        } else {
            None
        }
    }
}

/// `s` is a concatenation of well-formed UTF-8 sequences.
pub open spec fn is_valid_utf8(s: Seq<u8>) -> bool
    decreases s.len(),
{
    if s.len() == 0 {
        true
    } else {
        match utf8_step(s) {
            Some(w) => is_valid_utf8(s.skip(w)),
            None => false,
        }
    }
}

/// The width of the sequence starting at index `i` of `bytes`, or `None`
/// if no well-formed sequence starts there.
fn utf8_step_at(bytes: &Vec<u8>, i: usize) -> (r: Option<usize>)
    requires
        i < bytes@.len(),
    ensures
        match r {
            Some(w) => {
                &&& 1 <= w <= 4
                &&& i + w <= bytes@.len()
                &&& utf8_step(bytes@.skip(i as int)) == Some(w as int)
            },
            None => utf8_step(bytes@.skip(i as int)) is None,
        },
{
    let ghost tail = bytes@.skip(i as int);
    let n = bytes.len();
    let rem = n - i;
    let b0 = bytes[i];
    proof {
        assert(tail.len() == n - i);
        assert(tail[0] == b0);
        assert(forall|k: int| 0 <= k < tail.len() ==> tail[k] == bytes@[i + k]);
    }
    if b0 < 0x80 {
        Some(1)
    } else if 0xC2 <= b0 && b0 <= 0xDF {
        if rem >= 2 && 0x80 <= bytes[i + 1] && bytes[i + 1] <= 0xBF {
            Some(2)
        } else {
            None
        }
    } else if b0 == 0xE0 {
        if rem >= 3 && 0xA0 <= bytes[i + 1] && bytes[i + 1] <= 0xBF && 0x80 <= bytes[i + 2]
            && bytes[i + 2] <= 0xBF {
            Some(3)
        } else {
            None
        }
    } else if 0xE1 <= b0 && b0 <= 0xEC {
        if rem >= 3 && 0x80 <= bytes[i + 1] && bytes[i + 1] <= 0xBF && 0x80 <= bytes[i + 2]
            && bytes[i + 2] <= 0xBF {
            Some(3)
        } else {
            None
        }
    } else if b0 == 0xED {
        if rem >= 3 && 0x80 <= bytes[i + 1] && bytes[i + 1] <= 0x9F && 0x80 <= bytes[i + 2]
            && bytes[i + 2] <= 0xBF {
            Some(3)
        } else {
            None
        }
    } else if 0xEE <= b0 && b0 <= 0xEF {
        if rem >= 3 && 0x80 <= bytes[i + 1] && bytes[i + 1] <= 0xBF && 0x80 <= bytes[i + 2]
            && bytes[i + 2] <= 0xBF {
            Some(3)
        } else {
            None
        }
    } else if b0 == 0xF0 {
        if rem >= 4 && 0x90 <= bytes[i + 1] && bytes[i + 1] <= 0xBF && 0x80 <= bytes[i + 2]
            && bytes[i + 2] <= 0xBF && 0x80 <= bytes[i + 3] && bytes[i + 3] <= 0xBF {
            Some(4)
        } else {
            None
        }
    } else if 0xF1 <= b0 && b0 <= 0xF3 {
        if rem >= 4 && 0x80 <= bytes[i + 1] && bytes[i + 1] <= 0xBF && 0x80 <= bytes[i + 2]
            && bytes[i + 2] <= 0xBF && 0x80 <= bytes[i + 3] && bytes[i + 3] <= 0xBF {
            Some(4)
        } else {
            None
        }
    } else if b0 == 0xF4 {
        if rem >= 4 && 0x80 <= bytes[i + 1] && bytes[i + 1] <= 0x8F && 0x80 <= bytes[i + 2]
            && bytes[i + 2] <= 0xBF && 0x80 <= bytes[i + 3] && bytes[i + 3] <= 0xBF {
            Some(4)
        } else {
            None
        }
    } else {
        None
    }
}

/// Decides `is_valid_utf8`: whether `bytes` is valid UTF-8 text.
pub fn validate_utf8(bytes: &Vec<u8>) -> (r: bool)
    ensures
        r == is_valid_utf8(bytes@),
{
    let n = bytes.len();
    let mut i: usize = 0;
    proof {
        assert(bytes@.skip(0) =~= bytes@);
    }
    while i < n
        invariant
            n == bytes@.len(),
            i <= n,
            is_valid_utf8(bytes@) == is_valid_utf8(bytes@.skip(i as int)),
        decreases n - i,
    {
        match utf8_step_at(bytes, i) {
            Some(w) => {
                proof {
                    assert(bytes@.skip(i as int).skip(w as int) =~= bytes@.skip(i + w));
                }
                i = i + w;
            },
            None => {
                return false;
            },
        }
    }
    proof {
        assert(bytes@.skip(n as int) =~= Seq::<u8>::empty());
    }
    true
}

} // verus!
