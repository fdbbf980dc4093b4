//! Numeric text: which tokens denote integers, what value they denote, and
//! rendering an integer back as decimal text for error messages.
//!
//! A signed token is an optional `+` or `-` sign followed by one or more
//! decimal digits, with its value inside the `i64` range; an index token
//! (after the `$` of a variable reference) allows only an optional `+`.

use vstd::prelude::*;

verus! {

/// A decimal digit.
pub open spec fn is_digit(c: char) -> bool {
    0x30 <= c as u32 <= 0x39
}

/// The value of one decimal digit.
pub open spec fn digit_value(c: char) -> nat {
    (c as u32 - 0x30) as nat
}

/// Every character of `s` is a decimal digit.
pub open spec fn all_digits(s: Seq<char>) -> bool {
    forall|i: int| 0 <= i < s.len() ==> is_digit(s[i])
}

/// The value of a digit string, most significant digit first.
pub open spec fn digits_value(s: Seq<char>) -> nat
    decreases s.len(),
{
    if s.len() == 0 {
        0
    } else {
        digits_value(s.drop_last()) * 10 + digit_value(s.last())
    }
}

/// Extending a digit string to the right never decreases its value.
pub proof fn lemma_digits_value_take(s: Seq<char>, k: int)
    requires
        0 <= k <= s.len(),
    ensures
        digits_value(s.take(k)) <= digits_value(s),
    decreases s.len(),
{
    if k < s.len() {
        assert(s.take(k) =~= s.drop_last().take(k));
        lemma_digits_value_take(s.drop_last(), k);
    } else {
        assert(s.take(k) =~= s);
    }
}

/// The digits of a signed token, after any single leading sign.
pub open spec fn signed_digits(s: Seq<char>) -> Seq<char> {
    if s.len() > 0 && (s[0] == '+' || s[0] == '-') {
        s.drop_first()
    } else {
        s
    }
}

/// Optional sign, then one or more digits.
pub open spec fn is_signed_syntax(s: Seq<char>) -> bool {
    signed_digits(s).len() > 0 && all_digits(signed_digits(s))
}

/// The integer a signed token denotes.
pub open spec fn signed_value(s: Seq<char>) -> int {
    if s.len() > 0 && s[0] == '-' {
        -(digits_value(signed_digits(s)) as int)
    } else {
        digits_value(signed_digits(s)) as int
    }
}

/// A token that denotes an `i64` literal.
pub open spec fn is_int_token(s: Seq<char>) -> bool {
    is_signed_syntax(s) && i64::MIN <= signed_value(s) <= i64::MAX
}

/// The digits of an index token, after any single leading `+`.
pub open spec fn unsigned_digits(s: Seq<char>) -> Seq<char> {
    if s.len() > 0 && s[0] == '+' {
        s.drop_first()
    } else {
        s
    }
}

/// Optional `+`, then one or more digits (no `-`).
pub open spec fn is_unsigned_syntax(s: Seq<char>) -> bool {
    unsigned_digits(s).len() > 0 && all_digits(unsigned_digits(s))
}

/// The non-negative integer an index token denotes.
pub open spec fn unsigned_value(s: Seq<char>) -> nat {
    digits_value(unsigned_digits(s))
}

/// A token that denotes a history index.
pub open spec fn is_index_token(s: Seq<char>) -> bool {
    is_unsigned_syntax(s) && unsigned_value(s) <= usize::MAX
}

/// Reads `t` as a signed `i64` literal, or reports that it is none.
pub fn parse_int_token(t: &str) -> (r: Option<i64>)
    ensures
        match r {
            Some(v) => is_int_token(t@) && v == signed_value(t@),
            None => !is_int_token(t@),
        },
{
    let n = t.unicode_len();
    if n == 0 {
        return None;
    }
    let c0 = t.get_char(0);
    let neg = c0 == '-';
    let start: usize = if c0 == '-' || c0 == '+' {
        1
    } else {
        0
    };
    proof {
        assert(signed_digits(t@) =~= t@.subrange(start as int, n as int));
    }
    if start == n {
        return None;
    }
    let limit: u64 = if neg {
        9223372036854775808
    } else {
        9223372036854775807
    };
    let ghost whole = t@.subrange(start as int, n as int);
    let mut mag: u64 = 0;
    let mut i: usize = start;
    proof {
        assert(t@.subrange(start as int, start as int) =~= Seq::<char>::empty());
    }
    while i < n
        invariant
            start <= i <= n,
            n == t@.len(),
            whole == t@.subrange(start as int, n as int),
            whole == signed_digits(t@),
            neg == (t@.len() > 0 && t@[0] == '-'),
            limit == if neg {
                9223372036854775808u64
            } else {
                9223372036854775807u64
            },
            all_digits(t@.subrange(start as int, i as int)),
            mag == digits_value(t@.subrange(start as int, i as int)),
            mag <= limit,
        decreases n - i,
    {
        let c = t.get_char(i);
        let u = c as u32;
        if u < 0x30 || u > 0x39 {
            proof {
                assert(whole[i - start] == t@[i as int]);
                assert(!is_digit(whole[i - start]));
            }
            return None;
        }
        let d = (u - 0x30) as u64;
        let ghost prefix = t@.subrange(start as int, i as int);
        let ghost prefix1 = t@.subrange(start as int, i + 1);
        proof {
            assert(prefix1.drop_last() =~= prefix);
            assert(prefix1.last() == t@[i as int]);
            assert(digits_value(prefix1) == mag * 10 + d);
        }
        let mut next: u64 = 0;
        let mut too_big = false;
        match mag.checked_mul(10) {
            None => {
                too_big = true;
            },
            Some(m10) => {
                match m10.checked_add(d) {
                    None => {
                        too_big = true;
                    },
                    Some(v) => {
                        if v > limit {
                            too_big = true;
                        } else {
                            next = v;
                        }
                    },
                }
            },
        }
        if too_big {
            proof {
                assert(digits_value(prefix1) > limit);
                lemma_digits_value_take(whole, i + 1 - start);
                assert(whole.take(i + 1 - start) =~= prefix1);
                assert(digits_value(whole) > limit);
            }
            return None;
        }
        mag = next;
        i += 1;
        proof {
            assert(t@.subrange(start as int, i as int) =~= prefix1);
        }
    }
    proof {
        assert(t@.subrange(start as int, i as int) =~= whole);
        assert(is_signed_syntax(t@));
    }
    if neg {
        if mag == 9223372036854775808 {
            Some(i64::MIN)
        } else {
            Some(-(mag as i64))
        }
    } else {
        Some(mag as i64)
    }
}

/// Reads `t` as a history index, or reports that it is none.
pub fn parse_index_token(t: &str) -> (r: Option<usize>)
    ensures
        match r {
            Some(v) => is_index_token(t@) && v == unsigned_value(t@),
            None => !is_index_token(t@),
        },
{
    let n = t.unicode_len();
    if n == 0 {
        return None;
    }
    let c0 = t.get_char(0);
    let start: usize = if c0 == '+' {
        1
    } else {
        0
    };
    proof {
        assert(unsigned_digits(t@) =~= t@.subrange(start as int, n as int));
    }
    if start == n {
        return None;
    }
    let ghost whole = t@.subrange(start as int, n as int);
    let mut mag: usize = 0;
    let mut i: usize = start;
    proof {
        assert(t@.subrange(start as int, start as int) =~= Seq::<char>::empty());
    }
    while i < n
        invariant
            start <= i <= n,
            n == t@.len(),
            whole == t@.subrange(start as int, n as int),
            whole == unsigned_digits(t@),
            all_digits(t@.subrange(start as int, i as int)),
            mag == digits_value(t@.subrange(start as int, i as int)),
        decreases n - i,
    {
        let c = t.get_char(i);
        let u = c as u32;
        if u < 0x30 || u > 0x39 {
            proof {
                assert(whole[i - start] == t@[i as int]);
                assert(!is_digit(whole[i - start]));
            }
            return None;
        }
        let d = (u - 0x30) as usize;
        let ghost prefix = t@.subrange(start as int, i as int);
        let ghost prefix1 = t@.subrange(start as int, i + 1);
        proof {
            assert(prefix1.drop_last() =~= prefix);
            assert(prefix1.last() == t@[i as int]);
            assert(digits_value(prefix1) == mag * 10 + d);
        }
        let mut next: usize = 0;
        let mut too_big = false;
        match mag.checked_mul(10) {
            None => {
                too_big = true;
            },
            Some(m10) => {
                match m10.checked_add(d) {
                    None => {
                        too_big = true;
                    },
                    Some(v) => {
                        next = v;
                    },
                }
            },
        }
        if too_big {
            proof {
                assert(digits_value(prefix1) > usize::MAX);
                lemma_digits_value_take(whole, i + 1 - start);
                assert(whole.take(i + 1 - start) =~= prefix1);
                assert(digits_value(whole) > usize::MAX);
            }
            return None;
        }
        mag = next;
        i += 1;
        proof {
            assert(t@.subrange(start as int, i as int) =~= prefix1);
        }
    }
    proof {
        assert(t@.subrange(start as int, i as int) =~= whole);
        assert(is_unsigned_syntax(t@));
    }
    Some(mag)
}

/// The decimal digits of `n`, most significant first.
pub open spec fn spec_decimal(n: nat) -> Seq<char>
    decreases n,
{
    if n < 10 {
        seq![decimal_digit_char(n)]
    } else {
        spec_decimal(n / 10) + seq![decimal_digit_char(n % 10)]
    }
}

/// The character for one decimal digit.
pub open spec fn decimal_digit_char(d: nat) -> char {
    if d == 0 {
        '0'
    } else if d == 1 {
        '1'
    } else if d == 2 {
        '2'
    } else if d == 3 {
        '3'
    } else if d == 4 {
        '4'
    } else if d == 5 {
        '5'
    } else if d == 6 {
        '6'
    } else if d == 7 {
        '7'
    } else if d == 8 {
        '8'
    } else {
        '9'
    }
}

/// Appends the character of one decimal digit to `out`.
fn append_digit(out: &mut String, d: usize)
    requires
        d < 10,
    ensures
        final(out)@ == old(out)@ + seq![decimal_digit_char(d as nat)],
{
    if d == 0 {
        out.append("0");
        proof {
            reveal_strlit("0");
            assert("0"@ =~= seq![decimal_digit_char(0)]);
        }
    } else if d == 1 {
        out.append("1");
        proof {
            reveal_strlit("1");
            assert("1"@ =~= seq![decimal_digit_char(1)]);
        }
    } else if d == 2 {
        out.append("2");
        proof {
            reveal_strlit("2");
            assert("2"@ =~= seq![decimal_digit_char(2)]);
        }
    } else if d == 3 {
        out.append("3");
        proof {
            reveal_strlit("3");
            assert("3"@ =~= seq![decimal_digit_char(3)]);
        }
    } else if d == 4 {
        out.append("4");
        proof {
            reveal_strlit("4");
            assert("4"@ =~= seq![decimal_digit_char(4)]);
        }
    } else if d == 5 {
        out.append("5");
        proof {
            reveal_strlit("5");
            assert("5"@ =~= seq![decimal_digit_char(5)]);
        }
    } else if d == 6 {
        out.append("6");
        proof {
            reveal_strlit("6");
            assert("6"@ =~= seq![decimal_digit_char(6)]);
        }
    } else if d == 7 {
        out.append("7");
        proof {
            reveal_strlit("7");
            assert("7"@ =~= seq![decimal_digit_char(7)]);
        }
    } else if d == 8 {
        out.append("8");
        proof {
            reveal_strlit("8");
            assert("8"@ =~= seq![decimal_digit_char(8)]);
        }
    } else {
        out.append("9");
        proof {
            reveal_strlit("9");
            assert("9"@ =~= seq![decimal_digit_char(9)]);
        }
    }
}

/// Appends the decimal rendering of `n` to `out`.
pub fn append_decimal(out: &mut String, n: usize)
    ensures
        final(out)@ == old(out)@ + spec_decimal(n as nat),
    decreases n,
{
    if n < 10 {
        append_digit(out, n);
    } else {
        let ghost mid = old(out)@ + spec_decimal(n as nat / 10);
        append_decimal(out, n / 10);
        append_digit(out, n % 10);
        proof {
            assert(old(out)@ + (spec_decimal(n as nat / 10) + seq![
                decimal_digit_char(n as nat % 10),
            ]) =~= (old(out)@ + spec_decimal(n as nat / 10)) + seq![
                decimal_digit_char(n as nat % 10),
            ]);
        }
    }
}

} // verus!
