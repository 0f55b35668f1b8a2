//! The installer command line's decisions: exit codes, when a rollback
//! may go ahead, and the snapshot table's rows.
use crate::text::{append_str, chars_of, string_of};
use vstd::prelude::*;

verus! {

/// Success.
pub const EXIT_OK: u8 = 0;

/// Bad usage or a refused request.
pub const EXIT_USAGE_ERROR: u8 = 64;

/// A failure of the tool or the system.
pub const EXIT_INTERNAL_ERROR: u8 = 70;

/// The exit code passed on from a child process: its own where it has one
/// that fits in a byte, the internal-error code otherwise (no code, as
/// after a signal, or one out of range).
pub fn exit_from_status(code: Option<i32>) -> (c: u8)
    ensures
        c == match code {
            Some(x) => if 0 <= x <= 255 {
                x as u8
            } else {
                EXIT_INTERNAL_ERROR
            },
            None => EXIT_INTERNAL_ERROR,
        },
{
    let raw: i32 = match code {
        Some(x) => x,
        None => 70,
    };
    if 0 <= raw && raw <= 255 {
        raw as u8
    } else {
        EXIT_INTERNAL_ERROR
    }
}

/// A snapshot flagged incomplete is rolled back only when forced.
pub fn rollback_allowed(incomplete: bool, force: bool) -> (b: bool)
    ensures
        b == (!incomplete || force),
{
    !incomplete || force
}

/// `{:<w}`: the text padded with spaces on the right to `w` characters.
pub open spec fn pad_right(s: Seq<char>, w: nat) -> Seq<char> {
    if s.len() >= w {
        s
    } else {
        s + Seq::new((w - s.len()) as nat, |i: int| ' ')
    }
}

fn push_padded(out: &mut Vec<char>, s: &str, w: usize)
    ensures
        final(out)@ == old(out)@ + pad_right(s@, w as nat),
{
    let c = chars_of(s);
    crate::text::append_chars(out, &c);
    let mut n = c.len();
    let ghost base = old(out)@ + s@;
    while n < w
        invariant
            c@ == s@,
            c.len() <= n,
            n <= w || n == c.len(),
            out@ == base + Seq::new((n - c.len()) as nat, |i: int| ' '),
        decreases w - n,
    {
        out.push(' ');
        n += 1;
        assert(out@ =~= base + Seq::new((n - c.len()) as nat, |i: int| ' '));
    }
    if c.len() >= w {
        assert(out@ =~= old(out)@ + pad_right(s@, w as nat));
    } else {
        assert(out@ =~= old(out)@ + pad_right(s@, w as nat));
    }
}

/// One row of the snapshot table: the id in 24 columns, the state in 12,
/// then the goal.
pub fn snapshot_row(id: &str, incomplete: bool, goal: &str) -> (s: String)
    ensures
        s@ == pad_right(id@, 24) + " "@ + pad_right(
            if incomplete {
                "incomplete"@
            } else {
                "ok"@
            },
            12,
        ) + " "@ + goal@,
{
    let mut v: Vec<char> = Vec::new();
    push_padded(&mut v, id, 24);
    append_str(&mut v, " ");
    push_padded(&mut v, if incomplete { "incomplete" } else { "ok" }, 12);
    append_str(&mut v, " ");
    append_str(&mut v, goal);
    string_of(&v)
}

/// The table's header line.
pub fn snapshot_header() -> (s: String)
    ensures
        s@ == pad_right("id"@, 24) + " "@ + pad_right("complete"@, 12) + " goal"@,
{
    let mut v: Vec<char> = Vec::new();
    push_padded(&mut v, "id", 24);
    append_str(&mut v, " ");
    push_padded(&mut v, "complete", 12);
    append_str(&mut v, " goal");
    string_of(&v)
}

} // verus!
