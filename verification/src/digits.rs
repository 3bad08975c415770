//! Decimal number parsing for command arguments, specified over character
//! sequences.

use vstd::prelude::*;
use vstd::string::StrSliceExecFns;

verus! {

pub open spec fn is_digit(c: char) -> bool {
    48 <= c as u32 && c as u32 <= 57
}

pub open spec fn digit_val(c: char) -> nat {
    (c as u32 - 48) as nat
}

/// A nonempty, all-digit token.
pub open spec fn all_digits(s: Seq<char>) -> bool {
    s.len() > 0 && forall|i: int| 0 <= i < s.len() ==> is_digit(s[i])
}

/// The value of a digit string, most significant digit first.
pub open spec fn dec_val(s: Seq<char>) -> nat
    decreases s.len(),
{
    if s.len() == 0 {
        0
    } else {
        dec_val(s.drop_last()) * 10 + digit_val(s.last())
    }
}

pub open spec fn spec_dec_u32(s: Seq<char>) -> Option<u32> {
    if all_digits(s) && dec_val(s) <= u32::MAX {
        Some(dec_val(s) as u32)
    } else {
        None
    }
}

pub open spec fn spec_dec_u64(s: Seq<char>) -> Option<u64> {
    if all_digits(s) && dec_val(s) <= u64::MAX {
        Some(dec_val(s) as u64)
    } else {
        None
    }
}

pub open spec fn spec_dec_i32(s: Seq<char>) -> Option<i32> {
    if s.len() >= 2 && s[0] == '-' {
        let t = s.subrange(1, s.len() as int);
        if all_digits(t) && dec_val(t) <= 0x8000_0000 {
            Some((0 - dec_val(t) as int) as i32)
        } else {
            None
        }
    } else if all_digits(s) && dec_val(s) <= 0x7FFF_FFFF {
        Some(dec_val(s) as i32)
    } else {
        None
    }
}

/// A digit string's value only grows as digits are appended: the value of
/// the whole is at least the value of any prefix.
pub proof fn lemma_dec_val_prefix(s: Seq<char>, i: int)
    requires
        0 <= i <= s.len(),
    ensures
        dec_val(s) >= dec_val(s.take(i)),
    decreases s.len(),
{
    if i < s.len() {
        let t = s.drop_last();
        assert(t.take(i) =~= s.take(i));
        lemma_dec_val_prefix(t, i);
        assert(dec_val(s) == dec_val(t) * 10 + digit_val(s.last()));
        assert(dec_val(t) * 10 >= dec_val(t));
    } else {
        assert(s.take(i) =~= s);
    }
}

fn digit_of(c: char) -> (r: Option<u8>)
    ensures
        r is Some <==> is_digit(c),
        r matches Some(d) ==> d == digit_val(c),
{
    let u = c as u32;
    if 48 <= u && u <= 57 {
        Some((u - 48) as u8)
    } else {
        None
    }
}

/// Parse an unsigned 32-bit decimal argument; anything else — an empty
/// token, a non-digit, a value over the type's maximum — is rejected.
pub fn parse_u32(s: &String) -> (r: Option<u32>)
    ensures
        r == spec_dec_u32(s@),
{
    let n = s.as_str().unicode_len();
    if n == 0 {
        return None;
    }
    let mut acc: u64 = 0;
    let mut i: usize = 0;
    while i < n
        invariant
            n == s@.len(),
            0 < n,
            0 <= i <= n,
            forall|j: int| 0 <= j < i ==> is_digit(s@[j]),
            acc == dec_val(s@.take(i as int)),
            acc <= u32::MAX,
        decreases n - i,
    {
        let c = s.as_str().get_char(i);
        proof {
            assert(s@.take(i + 1).drop_last() =~= s@.take(i as int));
            assert(s@.take(i + 1).last() == s@[i as int]);
        }
        match digit_of(c) {
            Some(d) => {
                let next: u64 = acc * 10 + (d as u64);
                if next > (u32::MAX as u64) {
                    proof {
                        lemma_dec_val_prefix(s@, i + 1);
                    }
                    return None;
                }
                acc = next;
            },
            None => {
                return None;
            },
        }
        i += 1;
    }
    proof {
        assert(s@.take(n as int) =~= s@);
    }
    Some(acc as u32)
}

/// Parse an unsigned 64-bit decimal argument.
pub fn parse_u64(s: &String) -> (r: Option<u64>)
    ensures
        r == spec_dec_u64(s@),
{
    let n = s.as_str().unicode_len();
    if n == 0 {
        return None;
    }
    let mut acc: u128 = 0;
    let mut i: usize = 0;
    while i < n
        invariant
            n == s@.len(),
            0 < n,
            0 <= i <= n,
            forall|j: int| 0 <= j < i ==> is_digit(s@[j]),
            acc == dec_val(s@.take(i as int)),
            acc <= u64::MAX,
        decreases n - i,
    {
        let c = s.as_str().get_char(i);
        proof {
            assert(s@.take(i + 1).drop_last() =~= s@.take(i as int));
            assert(s@.take(i + 1).last() == s@[i as int]);
        }
        match digit_of(c) {
            Some(d) => {
                let next: u128 = acc * 10 + (d as u128);
                if next > (u64::MAX as u128) {
                    proof {
                        lemma_dec_val_prefix(s@, i + 1);
                    }
                    return None;
                }
                acc = next;
            },
            None => {
                return None;
            },
        }
        i += 1;
    }
    proof {
        assert(s@.take(n as int) =~= s@);
    }
    Some(acc as u64)
}

/// Parse a signed 32-bit decimal argument: an optional leading minus sign,
/// then digits.
pub fn parse_i32(s: &String) -> (r: Option<i32>)
    ensures
        r == spec_dec_i32(s@),
{
    let n = s.as_str().unicode_len();
    if n >= 2 && s.as_str().get_char(0) == '-' {
        let ghost t = s@.subrange(1, s@.len() as int);
        let mut acc: u64 = 0;
        let mut i: usize = 1;
        while i < n
            invariant
                n == s@.len(),
                2 <= n,
                t == s@.subrange(1, s@.len() as int),
                s@[0] == '-',
                1 <= i <= n,
                forall|j: int| 0 <= j < i - 1 ==> is_digit(t[j]),
                acc == dec_val(t.take(i - 1)),
                acc <= 0x8000_0000,
            decreases n - i,
        {
            let c = s.as_str().get_char(i);
            proof {
                assert(t.take(i as int).drop_last() =~= t.take(i - 1));
                assert(t.take(i as int).last() == t[i - 1]);
                assert(t[i - 1] == s@[i as int]);
            }
            match digit_of(c) {
                Some(d) => {
                    let next: u64 = acc * 10 + (d as u64);
                    if next > 0x8000_0000 {
                        proof {
                            lemma_dec_val_prefix(t, i as int);
                        }
                        return None;
                    }
                    acc = next;
                },
                None => {
                    return None;
                },
            }
            i += 1;
        }
        proof {
            assert(t.take(n - 1) =~= t);
        }
        if acc == 0x8000_0000 {
            Some(i32::MIN)
        } else {
            Some(-(acc as i32))
        }
    } else {
        let mut acc: u64 = 0;
        let mut i: usize = 0;
        if n == 0 {
            return None;
        }
        while i < n
            invariant
                n == s@.len(),
                0 < n,
                0 <= i <= n,
                !(n >= 2 && s@[0] == '-'),
                forall|j: int| 0 <= j < i ==> is_digit(s@[j]),
                acc == dec_val(s@.take(i as int)),
                acc <= 0x7FFF_FFFF,
            decreases n - i,
        {
            let c = s.as_str().get_char(i);
            proof {
                assert(s@.take(i + 1).drop_last() =~= s@.take(i as int));
                assert(s@.take(i + 1).last() == s@[i as int]);
            }
            match digit_of(c) {
                Some(d) => {
                    let next: u64 = acc * 10 + (d as u64);
                    if next > 0x7FFF_FFFF {
                        proof {
                            lemma_dec_val_prefix(s@, i + 1);
                        }
                        return None;
                    }
                    acc = next;
                },
                None => {
                    return None;
                },
            }
            i += 1;
        }
        proof {
            assert(s@.take(n as int) =~= s@);
        }
        Some(acc as i32)
    }
}

} // verus!
