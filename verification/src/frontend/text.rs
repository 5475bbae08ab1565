use crate::backend::ir::text::push_char;
use vstd::prelude::*;

verus! {

/// The characters of a text.
pub fn chars_of(s: &str) -> (v: Vec<char>)
    ensures
        v@ == s@,
{
    let mut v: Vec<char> = Vec::new();
    for c in it: s.chars()
        invariant
            v@ == it.seq().subrange(0, it.index() as int),
            it.seq() == s@,
    {
        v.push(c);
        assert(v@ =~= it.seq().subrange(0, it.index() + 1));
    }
    assert(s@.subrange(0, s@.len() as int) =~= s@);
    v
}

/// The text of `len` characters from `from` on.
pub fn string_of(v: &Vec<char>, from: usize, to: usize) -> (s: String)
    requires
        from <= to <= v@.len(),
    ensures
        s@ == v@.subrange(from as int, to as int),
{
    let mut s = String::new();
    let mut k: usize = from;
    while k < to
        invariant
            from <= k <= to <= v@.len(),
            s@ == v@.subrange(from as int, k as int),
        decreases to - k,
    {
        push_char(&mut s, v[k]);
        k += 1;
        assert(s@ =~= v@.subrange(from as int, k as int));
    }
    s
}

/// The digit that a character writes.
pub open spec fn digit_of(c: char) -> Option<int> {
    if 0x30 <= c as u32 <= 0x39 {
        Some(c as u32 - 0x30)
    } else {
        None
    }
}

/// The number that the first `n` characters write in decimal digits.
pub open spec fn digits_value(s: Seq<char>, n: nat) -> Option<int>
    decreases n,
{
    if n == 0 {
        Some(0)
    } else if n > s.len() {
        None
    } else {
        match (digits_value(s, (n - 1) as nat), digit_of(s[n - 1])) {
            (Some(v), Some(d)) => Some(10 * v + d),
            _ => None,
        }
    }
}

/// The number that a text writes: decimal digits, at least one, with or
/// without a sign before them, where the number fits 64 bits.
pub open spec fn integer_value(s: Seq<char>) -> Option<i64> {
    let signed = s.len() > 0 && (s[0] == '-' || s[0] == '+');
    let body = if signed {
        s.subrange(1, s.len() as int)
    } else {
        s
    };
    if body.len() == 0 {
        None
    } else {
        match digits_value(body, body.len()) {
            Some(v) => {
                let n = if s[0] == '-' {
                    -v
                } else {
                    v
                };
                if i64::MIN <= n <= i64::MAX {
                    Some(n as i64)
                } else {
                    None
                }
            },
            None => None,
        }
    }
}

/// Where digits write a number, each run of the first of them writes one
/// that is no larger.
pub proof fn lemma_digits_grow(s: Seq<char>, k: nat, n: nat)
    requires
        k <= n,
        digits_value(s, n) is Some,
    ensures
        digits_value(s, k) matches Some(v) && 0 <= v <= digits_value(s, n)->Some_0,
    decreases n,
{
    if n > 0 {
        if k < n {
            lemma_digits_grow(s, k, (n - 1) as nat);
        } else {
            lemma_digits_grow(s, (n - 1) as nat, (n - 1) as nat);
        }
    }
}

/// Reads a number in decimal digits.
pub fn parse_integer(s: &str) -> (r: Option<i64>)
    ensures
        r == integer_value(s@),
{
    let chars = chars_of(s);
    if chars.len() == 0 {
        return None;
    }
    let negative = chars[0] == '-';
    let start: usize = if negative || chars[0] == '+' {
        1
    } else {
        0
    };
    if start == chars.len() {
        return None;
    }
    let limit: u128 = if negative {
        9223372036854775808
    } else {
        9223372036854775807
    };
    let ghost body = chars@.subrange(start as int, chars@.len() as int);
    assert(start == 0 ==> body =~= chars@);
    let mut acc: u128 = 0;
    let mut k: usize = start;
    while k < chars.len()
        invariant
            start <= k <= chars.len(),
            body == chars@.subrange(start as int, chars@.len() as int),
            digits_value(body, (k - start) as nat) == Some(acc as int),
            acc <= limit <= 9223372036854775808,
            chars@ == s@,
            chars@.len() > 0,
            negative == (chars@[0] == '-'),
            start == (if chars@[0] == '-' || chars@[0] == '+' {
                1usize
            } else {
                0usize
            }),
            start == 0 ==> body == chars@,
            limit == (if negative {
                9223372036854775808u128
            } else {
                9223372036854775807u128
            }),
        decreases chars.len() - k,
    {
        let u = chars[k] as u32;
        assert(body[k - start] == chars@[k as int]);
        if u < 0x30 || u > 0x39 {
            proof {
                assert(digit_of(body[k - start]) is None);
                assert(digits_value(body, (k - start + 1) as nat) is None);
                if digits_value(body, body.len()) is Some {
                    lemma_digits_grow(body, (k - start + 1) as nat, body.len());
                }
            }
            return None;
        }
        let next: u128 = acc * 10 + (u - 0x30) as u128;
        assert(digits_value(body, (k - start + 1) as nat) == Some(next as int));
        if next > limit {
            proof {
                if digits_value(body, body.len()) is Some {
                    lemma_digits_grow(body, (k - start + 1) as nat, body.len());
                }
            }
            return None;
        }
        acc = next;
        k += 1;
    }
    if negative {
        if acc == 9223372036854775808 {
            Some(i64::MIN)
        } else {
            Some(0 - (acc as i64))
        }
    } else {
        Some(acc as i64)
    }
}

} // verus!
