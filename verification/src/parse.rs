use vstd::prelude::*;

verus! {

/// Whether `c` is a decimal digit.
pub open spec fn is_digit(c: char) -> bool {
    48 <= c as u32 <= 57
}

/// The value of a digit character.
pub open spec fn digit_val(c: char) -> nat {
    if 48 <= c as u32 {
        (c as u32 - 48) as nat
    } else {
        0
    }
}

/// Whether every character is a decimal digit.
pub open spec fn all_digits(s: Seq<char>) -> bool {
    forall|i: int| 0 <= i < s.len() ==> is_digit(#[trigger] s[i])
}

/// The value of a digit string, most significant digit first.
pub open spec fn dec_value(s: Seq<char>) -> nat
    decreases s.len(),
{
    if s.len() == 0 {
        0
    } else {
        dec_value(s.drop_last()) * 10 + digit_val(s.last())
    }
}

/// What parsing a process or thread identifier yields: the decimal value of
/// a nonempty all-digit string that fits the identifier type, and nothing
/// for anything else.
pub open spec fn parse_pid_spec(s: Seq<char>) -> Option<i32> {
    if s.len() > 0 && all_digits(s) && dec_value(s) <= 0x7fff_ffff {
        Some(dec_value(s) as i32)
    } else {
        None
    }
}

/// A longer digit string never has a smaller value.
proof fn lemma_dec_value_prefix(s: Seq<char>, k: int)
    requires
        0 <= k <= s.len(),
    ensures
        dec_value(s.take(k)) <= dec_value(s),
    decreases s.len() - k,
{
    if k == s.len() {
        assert(s.take(k) =~= s);
    } else {
        assert(s.take(k + 1).drop_last() =~= s.take(k));
        assert(s.take(k + 1).last() == s[k]);
        let v = dec_value(s.take(k));
        assert(v * 10 >= v) by (nonlinear_arith);
        lemma_dec_value_prefix(s, k + 1);
    }
}

/// Parses a process or thread identifier: a nonempty string of decimal
/// digits whose value fits the identifier type; anything else is rejected.
pub fn parse_pid(s: &str) -> (r: Option<i32>)
    ensures
        r == parse_pid_spec(s@),
{
    let n = s.unicode_len();
    if n == 0 {
        return None;
    }
    let mut acc: u64 = 0;
    let mut i: usize = 0;
    while i < n
        invariant
            n == s@.len(),
            i <= n,
            all_digits(s@.take(i as int)),
            acc == dec_value(s@.take(i as int)),
            acc <= 0x7fff_ffff,
        decreases n - i,
    {
        let c = s.get_char(i);
        let code = c as u32;
        if code < 48 || code > 57 {
            proof {
                assert(!is_digit(s@[i as int]));
            }
            return None;
        }
        proof {
            assert(s@.take(i + 1).drop_last() =~= s@.take(i as int));
            assert(s@.take(i + 1).last() == s@[i as int]);
        }
        acc = acc * 10 + ((code - 48) as u64);
        if acc > 0x7fff_ffff {
            proof {
                lemma_dec_value_prefix(s@, i + 1);
            }
            return None;
        }
        i = i + 1;
    }
    proof {
        assert(s@.take(n as int) =~= s@);
    }
    Some(acc as i32)
}

} // verus!
