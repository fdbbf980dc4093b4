//! Splitting an input line into whitespace-separated tokens.
//!
//! `spec_tokenize` is the mathematical model: a recursive definition over a
//! sequence of characters. The executable `tokenize` is proved to produce
//! exactly the tokens that `spec_tokenize` describes.

use vstd::prelude::*;

verus! {

/// The characters that separate tokens (the Unicode `White_Space` set).
pub open spec fn is_space(c: char) -> bool {
    let u = c as u32;
    ||| u == 0x09
    ||| u == 0x0A
    ||| u == 0x0B
    ||| u == 0x0C
    ||| u == 0x0D
    ||| u == 0x20
    ||| u == 0x85
    ||| u == 0xA0
    ||| u == 0x1680
    ||| (0x2000 <= u && u <= 0x200A)
    ||| u == 0x2028
    ||| u == 0x2029
    ||| u == 0x202F
    ||| u == 0x205F
    ||| u == 0x3000
}

/// Runtime check for `is_space`.
pub fn is_space_char(c: char) -> (r: bool)
    ensures
        r == is_space(c),
{
    let u = c as u32;
    u == 0x09 || u == 0x0A || u == 0x0B || u == 0x0C || u == 0x0D || u == 0x20 || u == 0x85
        || u == 0xA0 || u == 0x1680 || (0x2000 <= u && u <= 0x200A) || u == 0x2028 || u == 0x2029
        || u == 0x202F || u == 0x205F || u == 0x3000
}

/// True when no character of `s` is whitespace.
pub open spec fn no_space(s: Seq<char>) -> bool {
    forall|i: int| 0 <= i < s.len() ==> !is_space(s[i])
}

/// The whitespace-separated tokens of `s`, in order, each token a maximal
/// run of non-whitespace characters.
pub open spec fn spec_tokenize(s: Seq<char>) -> Seq<Seq<char>>
    decreases s.len(),
{
    if s.len() == 0 {
        Seq::empty()
    } else if is_space(s[0]) {
        spec_tokenize(s.drop_first())
    } else {
        let rest = spec_tokenize(s.drop_first());
        if s.len() > 1 && !is_space(s[1]) {
            seq![seq![s[0]] + rest.first()] + rest.drop_first()
        } else {
            seq![seq![s[0]]] + rest
        }
    }
}

/// A maximal non-whitespace run at the front of the input is one token:
/// if `cur` is non-empty, has no whitespace, and `rest` is empty or starts
/// with whitespace, then tokenizing `cur + rest` yields `cur` followed by
/// the tokens of `rest`.
pub proof fn lemma_tokenize_run(cur: Seq<char>, rest: Seq<char>)
    requires
        cur.len() > 0,
        no_space(cur),
        rest.len() == 0 || is_space(rest[0]),
    ensures
        spec_tokenize(cur + rest) == seq![cur] + spec_tokenize(rest),
    decreases cur.len(),
{
    let s = cur + rest;
    assert(s[0] == cur[0]);
    assert(!is_space(s[0]));
    if cur.len() == 1 {
        assert(s.drop_first() =~= rest);
        if s.len() > 1 && !is_space(s[1]) {
            assert(is_space(rest[0]));
            assert(false);
        }
        assert(seq![s[0]] =~= cur);
        assert(spec_tokenize(s) == seq![seq![s[0]]] + spec_tokenize(rest));
        assert(seq![seq![s[0]]] =~= seq![cur]);
    } else {
        assert(s.len() > 1);
        assert(s[1] == cur[1]);
        assert(!is_space(s[1]));
        assert(s.drop_first() =~= cur.drop_first() + rest);
        lemma_tokenize_run(cur.drop_first(), rest);
        let inner = spec_tokenize(cur.drop_first() + rest);
        assert(inner == seq![cur.drop_first()] + spec_tokenize(rest));
        assert(inner.first() == cur.drop_first());
        assert(inner.drop_first() =~= spec_tokenize(rest));
        assert(seq![s[0]] + inner.first() =~= cur);
        assert(spec_tokenize(s) == seq![seq![s[0]] + inner.first()] + inner.drop_first());
        assert(seq![seq![s[0]] + inner.first()] =~= seq![cur]);
    }
}

/// The views of a sequence of string slices.
pub open spec fn token_views(ts: Seq<&str>) -> Seq<Seq<char>> {
    Seq::new(ts.len(), |i: int| ts[i]@)
}

/// Splits `line` into its whitespace-separated tokens.
pub fn tokenize<'a>(line: &'a str) -> (r: Vec<&'a str>)
    ensures
        token_views(r@) == spec_tokenize(line@),
{
    let n = line.unicode_len();
    let mut tokens: Vec<&'a str> = Vec::new();
    let mut start: Option<usize> = None;
    let mut i: usize = 0;
    proof {
        assert(token_views(tokens@) =~= Seq::<Seq<char>>::empty());
        assert(line@.skip(0) =~= line@);
    }
    while i < n
        invariant
            n == line@.len(),
            i <= n,
            match start {
                Some(st) => {
                    &&& st < i
                    &&& no_space(line@.subrange(st as int, i as int))
                    &&& spec_tokenize(line@) == token_views(tokens@) + spec_tokenize(
                        line@.skip(st as int),
                    )
                },
                None => spec_tokenize(line@) == token_views(tokens@) + spec_tokenize(
                    line@.skip(i as int),
                ),
            },
        decreases n - i,
    {
        let c = line.get_char(i);
        if is_space_char(c) {
            match start {
                Some(st) => {
                    let tok = line.substring_char(st, i);
                    proof {
                        let cur = line@.subrange(st as int, i as int);
                        let rest = line@.skip(i as int);
                        assert(line@.skip(st as int) =~= cur + rest);
                        lemma_tokenize_run(cur, rest);
                        assert(token_views(tokens@.push(tok)) =~= token_views(tokens@) + seq![
                            cur,
                        ]);
                        assert(token_views(tokens@) + (seq![cur] + spec_tokenize(rest))
                            =~= (token_views(tokens@) + seq![cur]) + spec_tokenize(rest));
                    }
                    tokens.push(tok);
                    start = None;
                },
                None => {
                },
            }
            proof {
                let suffix = line@.skip(i as int);
                assert(suffix[0] == line@[i as int]);
                assert(suffix.drop_first() =~= line@.skip(i + 1));
                assert(spec_tokenize(suffix) == spec_tokenize(line@.skip(i + 1)));
            }
        } else {
            match start {
                Some(st) => {
                    proof {
                        assert(no_space(line@.subrange(st as int, i + 1)));
                    }
                },
                None => {
                    start = Some(i);
                    proof {
                        assert(no_space(line@.subrange(i as int, i + 1)));
                    }
                },
            }
        }
        i += 1;
    }
    match start {
        Some(st) => {
            let tok = line.substring_char(st, n);
            proof {
                let cur = line@.subrange(st as int, n as int);
                let rest = line@.skip(n as int);
                assert(rest =~= Seq::<char>::empty());
                assert(line@.skip(st as int) =~= cur + rest);
                lemma_tokenize_run(cur, rest);
                assert(spec_tokenize(rest) =~= Seq::<Seq<char>>::empty());
                assert(token_views(tokens@.push(tok)) =~= token_views(tokens@) + seq![cur]);
                assert(token_views(tokens@) + (seq![cur] + spec_tokenize(rest)) =~= token_views(
                    tokens@.push(tok),
                ));
            }
            tokens.push(tok);
        },
        None => {
            proof {
                assert(line@.skip(n as int) =~= Seq::<char>::empty());
                assert(spec_tokenize(line@.skip(n as int)) =~= Seq::<Seq<char>>::empty());
                assert(token_views(tokens@) + spec_tokenize(line@.skip(n as int)) =~= token_views(
                    tokens@,
                ));
            }
        },
    }
    tokens
}

/// Character-for-character equality of two string slices.
pub fn str_eq(a: &str, b: &str) -> (r: bool)
    ensures
        r == (a@ == b@),
{
    let an = a.unicode_len();
    let bn = b.unicode_len();
    if an != bn {
        return false;
    }
    let mut i: usize = 0;
    while i < an
        invariant
            i <= an,
            an == a@.len(),
            an == b@.len(),
            forall|j: int| 0 <= j < i ==> a@[j] == b@[j],
        decreases an - i,
    {
        if a.get_char(i) != b.get_char(i) {
            return false;
        }
        i += 1;
    }
    proof {
        assert(a@ =~= b@);
    }
    true
}

} // verus!
