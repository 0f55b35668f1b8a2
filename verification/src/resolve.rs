//! Version strings and process ids read from the output of the programs
//! the detectors run (`<app> --version`, `ibus --version`, `pgrep`).
use crate::text::{
    chars_of, first_match, is_digit, is_alpha, lemma_first_match_append, line_tokens, lines,
    split_line_tokens, split_lines, string_of, trim, trim_vec, views,
};
use vstd::prelude::*;

verus! {

/// A `MAJOR.MINOR(.PATCH)?` token: starts with a digit, holds a `.`, and
/// otherwise only ASCII letters, digits, `-` and `_`.
pub open spec fn looks_like_version_spec(tok: Seq<char>) -> bool {
    &&& tok.len() > 0
    &&& is_digit(tok[0])
    &&& exists|i: int| 1 <= i < tok.len() && tok[i] == '.'
    &&& forall|i: int|
        1 <= i < tok.len() ==> #[trigger] tok[i] == '.' || is_digit(tok[i]) || tok[i] == '-'
            || tok[i] == '_' || is_alpha(tok[i])
}

pub open spec fn starts_with_digit(tok: Seq<char>) -> bool {
    tok.len() > 0 && is_digit(tok[0])
}

/// The token test of `parse_version_token`, as a value.
pub open spec fn version_pred() -> spec_fn(Seq<char>) -> bool {
    |t: Seq<char>| looks_like_version_spec(t)
}

/// The token test of `parse_ibus_version`, as a value.
pub open spec fn digit_pred() -> spec_fn(Seq<char>) -> bool {
    |t: Seq<char>| starts_with_digit(t)
}

pub fn looks_like_version(tok: &Vec<char>) -> (b: bool)
    ensures
        b == looks_like_version_spec(tok@),
{
    if tok.len() == 0 {
        return false;
    }
    let first = tok[0];
    if !('0' <= first && first <= '9') {
        return false;
    }
    let mut saw_dot = false;
    let mut i: usize = 1;
    while i < tok.len()
        invariant
            1 <= i <= tok.len(),
            saw_dot == exists|j: int| 1 <= j < i && tok@[j] == '.',
            forall|j: int|
                1 <= j < i ==> #[trigger] tok@[j] == '.' || is_digit(tok@[j]) || tok@[j] == '-'
                    || tok@[j] == '_' || is_alpha(tok@[j]),
        decreases tok.len() - i,
    {
        let c = tok[i];
        if c == '.' {
            saw_dot = true;
        } else if !(('0' <= c && c <= '9') || c == '-' || c == '_' || ('a' <= c && c <= 'z') || (
        'A' <= c && c <= 'Z')) {
            return false;
        }
        i += 1;
    }
    saw_dot
}

fn starts_with_digit_exec(tok: &Vec<char>) -> (b: bool)
    ensures
        b == starts_with_digit(tok@),
{
    tok.len() > 0 && '0' <= tok[0] && tok[0] <= '9'
}

/// The first token of `stdout` (across its lines) that looks like a
/// version number.
pub fn parse_version_token(stdout: &str) -> (r: Option<String>)
    ensures
        match r {
            Some(v) => first_match(line_tokens(stdout@), version_pred())
                == Some(v@),
            None => first_match(line_tokens(stdout@), version_pred())
                is None,
        },
{
    let ghost p = version_pred();
    let chars = chars_of(stdout);
    let toks = split_line_tokens(&chars);
    let mut i: usize = 0;
    while i < toks.len()
        invariant
            i <= toks.len(),
            views(toks@) == line_tokens(stdout@),
            p == version_pred(),
            first_match(views(toks@).take(i as int), p) is None,
        decreases toks.len() - i,
    {
        let ghost all = views(toks@);
        proof {
            lemma_first_match_append(all.take(i as int), seq![all[i as int]], p);
            assert(all.take(i + 1) =~= all.take(i as int) + seq![all[i as int]]);
            assert(seq![all[i as int]].drop_first() =~= Seq::<Seq<char>>::empty());
            assert(first_match(Seq::<Seq<char>>::empty(), p) is None);
        }
        assert(all[i as int] == toks@[i as int]@);
        assert(p(all[i as int]) == looks_like_version_spec(all[i as int]));
        if looks_like_version(&toks[i]) {
            proof {
                lemma_first_match_append(all.take(i + 1), all.skip(i + 1), p);
                assert(all =~= all.take(i + 1) + all.skip(i + 1));
            }
            return Some(string_of(&toks[i]));
        }
        i += 1;
    }
    assert(views(toks@).take(toks.len() as int) =~= views(toks@));
    None
}

/// `ibus --version` / `fcitx5 --version`: the first token that starts
/// with a digit (`IBus 1.5.29` gives `1.5.29`).
pub fn parse_ibus_version(stdout: &str) -> (r: Option<String>)
    ensures
        match r {
            Some(v) => first_match(line_tokens(stdout@), digit_pred()) == Some(
                v@,
            ),
            None => first_match(line_tokens(stdout@), digit_pred()) is None,
        },
{
    let ghost p = digit_pred();
    let chars = chars_of(stdout);
    let toks = split_line_tokens(&chars);
    let mut i: usize = 0;
    while i < toks.len()
        invariant
            i <= toks.len(),
            views(toks@) == line_tokens(stdout@),
            p == digit_pred(),
            first_match(views(toks@).take(i as int), p) is None,
        decreases toks.len() - i,
    {
        let ghost all = views(toks@);
        proof {
            lemma_first_match_append(all.take(i as int), seq![all[i as int]], p);
            assert(all.take(i + 1) =~= all.take(i as int) + seq![all[i as int]]);
            assert(seq![all[i as int]].drop_first() =~= Seq::<Seq<char>>::empty());
            assert(first_match(Seq::<Seq<char>>::empty(), p) is None);
        }
        assert(all[i as int] == toks@[i as int]@);
        assert(p(all[i as int]) == starts_with_digit(all[i as int]));
        if starts_with_digit_exec(&toks[i]) {
            proof {
                lemma_first_match_append(all.take(i + 1), all.skip(i + 1), p);
                assert(all =~= all.take(i + 1) + all.skip(i + 1));
            }
            return Some(string_of(&toks[i]));
        }
        i += 1;
    }
    assert(views(toks@).take(toks.len() as int) =~= views(toks@));
    None
}

// ------------------------------------------------------------------ u32

/// The number the decimal digits `d` denote.
pub open spec fn digits_value(d: Seq<char>) -> nat
    decreases d.len(),
{
    if d.len() == 0 {
        0
    } else {
        digits_value(d.drop_last()) * 10 + ((d.last() as u32) - ('0' as u32)) as nat
    }
}

/// The digits part of a `u32` literal: the text after an optional `+`.
pub open spec fn u32_digits(t: Seq<char>) -> Seq<char> {
    if t.len() > 0 && t[0] == '+' {
        t.drop_first()
    } else {
        t
    }
}

pub open spec fn all_digits(d: Seq<char>) -> bool {
    forall|i: int| 0 <= i < d.len() ==> is_digit(#[trigger] d[i])
}

/// `str::parse::<u32>`: an optional `+`, then one or more decimal digits
/// denoting a value that fits.
pub open spec fn parse_u32_spec(t: Seq<char>) -> Option<u32> {
    let d = u32_digits(t);
    if d.len() > 0 && all_digits(d) && digits_value(d) <= u32::MAX {
        Some(digits_value(d) as u32)
    } else {
        None
    }
}

proof fn lemma_digits_value_mono(d: Seq<char>, i: int)
    requires
        0 <= i <= d.len(),
        forall|j: int| 0 <= j < d.len() ==> is_digit(#[trigger] d[j]),
    ensures
        digits_value(d.take(i)) <= digits_value(d),
    decreases d.len() - i,
{
    if i < d.len() {
        lemma_digits_value_mono(d, i + 1);
        assert(d.take(i + 1).drop_last() =~= d.take(i));
        assert(is_digit(d[i]));
    } else {
        assert(d.take(i) =~= d);
    }
}

pub fn parse_u32(t: &Vec<char>) -> (r: Option<u32>)
    ensures
        r == parse_u32_spec(t@),
{
    let start: usize = if t.len() > 0 && t[0] == '+' {
        1
    } else {
        0
    };
    let ghost d = u32_digits(t@);
    assert(d =~= t@.skip(start as int));
    if start >= t.len() {
        return None;
    }
    let mut acc: u64 = 0;
    let mut i: usize = start;
    assert(d.take(0) =~= Seq::<char>::empty());
    while i < t.len()
        invariant
            start <= i <= t.len(),
            d == t@.skip(start as int),
            d == u32_digits(t@),
            forall|j: int| 0 <= j < i - start ==> is_digit(#[trigger] d[j]),
            acc == digits_value(d.take(i - start)),
            acc <= u32::MAX,
        decreases t.len() - i,
    {
        let c = t[i];
        assert(d[i - start] == c);
        if !('0' <= c && c <= '9') {
            assert(!is_digit(d[i - start]));
            assert(!all_digits(d));
            return None;
        }
        let dv = (c as u32 - '0' as u32) as u64;
        assert(d.take(i - start + 1).drop_last() =~= d.take(i - start));
        assert(d.take(i - start + 1).last() == c);
        let next = acc * 10 + dv;
        assert(next == digits_value(d.take(i - start + 1)));
        if next > 0xFFFF_FFFF {
            proof {
                if all_digits(d) {
                    lemma_digits_value_mono(d, i - start + 1);
                    assert(digits_value(d) > u32::MAX);
                }
            }
            return None;
        }
        acc = next;
        i += 1;
    }
    assert(d.take(t.len() - start) =~= d);
    Some(acc as u32)
}

/// `pgrep` output: the first line, trimmed, as a process id.
pub fn parse_first_pid(stdout: &str) -> (r: Option<u32>)
    ensures
        r == (if lines(stdout@).len() > 0 {
            parse_u32_spec(trim(lines(stdout@)[0]))
        } else {
            None
        }),
{
    let chars = chars_of(stdout);
    let ls = split_lines(&chars);
    if ls.len() == 0 {
        return None;
    }
    assert(views(ls@)[0] == ls@[0]@);
    let t = trim_vec(&ls[0]);
    parse_u32(&t)
}

} // verus!
