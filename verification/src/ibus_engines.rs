//! Reading `ibus list-engine` output into engine ids.
use crate::text::{chars_of, contains_seq, ends_with, lines, occurs_at, slice_of, split_lines, string_views, trim, trim_vec, views};
use vstd::prelude::*;

verus! {

pub open spec fn sep() -> Seq<char> {
    seq![' ', '-', ' ']
}

/// The greatest `i <= n` at which `p` occurs in `s`.
pub open spec fn last_occ(s: Seq<char>, p: Seq<char>, n: int) -> Option<int>
    decreases n + 1,
{
    if n < 0 {
        None
    } else if occurs_at(s, p, n) {
        Some(n)
    } else {
        last_occ(s, p, n - 1)
    }
}

/// The text after the last ` - `, or all of it where there is none
/// (`rsplit(" - ").next()`).
pub open spec fn after_last_sep(s: Seq<char>) -> Seq<char> {
    match last_occ(s, sep(), s.len() - 3) {
        Some(i) => s.skip(i + 3),
        None => s,
    }
}

/// The engine id a line names, if any: blank lines and language headers
/// (ending in `:` with no ` - `) name none; otherwise the trimmed text
/// after the last ` - `, where that is not empty.
pub open spec fn engine_of_line(raw: Seq<char>) -> Option<Seq<char>> {
    let t = trim(raw);
    if t.len() == 0 {
        None
    } else if !contains_seq(t, sep()) && ends_with(t, seq![':']) {
        None
    } else {
        let id = trim(after_last_sep(t));
        if id.len() == 0 {
            None
        } else {
            Some(id)
        }
    }
}

/// The ids in order of first appearance, each once.
pub open spec fn engine_ids(ls: Seq<Seq<char>>) -> Seq<Seq<char>>
    decreases ls.len(),
{
    if ls.len() == 0 {
        seq![]
    } else {
        let r = engine_ids(ls.drop_last());
        match engine_of_line(ls.last()) {
            Some(id) => if r.contains(id) {
                r
            } else {
                r.push(id)
            },
            None => r,
        }
    }
}

fn occurs_at_exec(s: &Vec<char>, i: usize) -> (b: bool)
    requires
        i + 3 <= s.len(),
    ensures
        b == occurs_at(s@, sep(), i as int),
{
    let b = s[i] == ' ' && s[i + 1] == '-' && s[i + 2] == ' ';
    assert(b ==> s@.subrange(i as int, i + 3) =~= sep());
    assert(s@.subrange(i as int, i + 3) =~= sep() ==> (s@[i as int] == ' ' && s@[i + 1] == '-' && s@[i + 2] == ' '));
    b
}

proof fn lemma_last_occ_none(s: Seq<char>, p: Seq<char>, n: int)
    requires
        last_occ(s, p, n) is None,
    ensures
        forall|i: int| 0 <= i <= n ==> !occurs_at(s, p, i),
    decreases n + 1,
{
    if n >= 0 {
        lemma_last_occ_none(s, p, n - 1);
    }
}

/// The text after the last ` - `.
fn after_last_sep_exec(s: &Vec<char>) -> (r: Vec<char>)
    ensures
        r@ == after_last_sep(s@),
{
    if s.len() < 3 {
        proof {
            assert(last_occ(s@, sep(), s.len() - 3) is None);
        }
        return slice_of(s, 0, s.len());
    }
    let mut i: usize = s.len() - 3;
    loop
        invariant
            i + 3 <= s.len(),
            last_occ(s@, sep(), s.len() - 3) == last_occ(s@, sep(), i as int),
        decreases i,
    {
        if occurs_at_exec(s, i) {
            return slice_of(s, i + 3, s.len());
        }
        if i == 0 {
            assert(last_occ(s@, sep(), -1) is None);
            let r = slice_of(s, 0, s.len());
            assert(r@ =~= s@);
            return r;
        }
        i -= 1;
    }
}

fn contains_sep(s: &Vec<char>) -> (b: bool)
    ensures
        b == contains_seq(s@, sep()),
{
    let p = chars_of(" - ");
    assert(p@ =~= sep()) by {
        reveal_strlit(" - ");
    }
    crate::text::contains(s, &p)
}

/// The engine ids `ibus list-engine` reports, each once, in order.
pub fn parse_engine_ids(stdout: &str) -> (out: Vec<String>)
    ensures
        string_views(out@) == engine_ids(lines(stdout@)),
{
    let chars = chars_of(stdout);
    let ls = split_lines(&chars);
    let ghost all = views(ls@);
    let mut out: Vec<Vec<char>> = Vec::new();
    let mut i: usize = 0;
    assert(all.take(0) =~= Seq::<Seq<char>>::empty());
    while i < ls.len()
        invariant
            i <= ls.len(),
            all == views(ls@),
            all == lines(stdout@),
            views(out@) == engine_ids(all.take(i as int)),
        decreases ls.len() - i,
    {
        assert(all.take(i + 1).drop_last() =~= all.take(i as int));
        assert(all.take(i + 1).last() == ls@[i as int]@);
        let t = trim_vec(&ls[i]);
        if t.len() == 0 {
        } else if !contains_sep(&t) && t[t.len() - 1] == ':' {
            assert(ends_with(t@, seq![':'])) by {
                assert(t@.subrange(t@.len() - 1, t@.len() as int) =~= seq![':']);
            }
        } else {
            proof {
                if t@.len() > 0 && t@[t@.len() - 1] != ':' {
                    if ends_with(t@, seq![':']) {
                        assert(t@.subrange(t@.len() - 1, t@.len() as int)[0] == ':');
                    }
                }
            }
            let a = after_last_sep_exec(&t);
            let id = trim_vec(&a);
            if id.len() > 0 {
                if !crate::text::contains_vec(&out, &id) {
                    let ghost before = views(out@);
                    out.push(id);
                    assert(views(out@) =~= before.push(trim(after_last_sep(t@))));
                }
            }
        }
        i += 1;
    }
    assert(all.take(ls.len() as int) =~= all);
    crate::text::strings_of(&out)
}

} // verus!
