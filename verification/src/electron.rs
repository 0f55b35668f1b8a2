//! Electron / Chromium facts: the runtime version embedded in the app's
//! binary and whether a running copy uses the Ozone/Wayland backend.
use crate::text::{chars_of, eq_str, has_prefix_str, slice_of, split_char, split_char_exec, starts_with, views};
use vstd::prelude::*;
use vstd::string::is_ascii;

verus! {

/// A byte that may appear in a version run: ASCII letters and digits,
/// `.`, `-`, `_`, `+`.
pub open spec fn version_byte(b: u8) -> bool {
    (48 <= b <= 57) || b == 46 || b == 45 || b == 95 || b == 43 || (65 <= b <= 90) || (97 <= b
        <= 122)
}

fn is_version_byte(b: u8) -> (r: bool)
    ensures
        r == version_byte(b),
{
    (48 <= b && b <= 57) || b == 46 || b == 45 || b == 95 || b == 43 || (65 <= b && b <= 90) || (97
        <= b && b <= 122)
}

/// End of the run of version bytes starting at `j`.
pub open spec fn run_end(h: Seq<u8>, j: int) -> int
    decreases h.len() - j,
{
    if 0 <= j < h.len() && version_byte(h[j]) {
        run_end(h, j + 1)
    } else {
        j
    }
}

/// Scanning `h` from `i` for `tag`: at each occurrence the run of version
/// bytes right after it is taken when it starts with a digit and holds a
/// `.`; otherwise the scan goes on after that run.
pub open spec fn scan_tag(h: Seq<u8>, tag: Seq<u8>, i: int) -> Option<Seq<u8>>
    decreases h.len() - i,
{
    if tag.len() == 0 || i < 0 || i + tag.len() > h.len() {
        None
    } else if h.subrange(i, i + tag.len()) == tag {
        let start = i + tag.len();
        let end = run_end(h, start);
        let run = h.subrange(start, end);
        if start <= end <= h.len() && run.len() > 0 && 48 <= run[0] <= 57 && run.contains(46u8) {
            Some(run)
        } else {
            scan_tag(
                h,
                tag,
                if i < end <= h.len() {
                    end
                } else {
                    i + 1
                },
            )
        }
    } else {
        scan_tag(h, tag, i + 1)
    }
}

/// Bytes read as (ASCII) characters.
pub open spec fn ascii_chars(b: Seq<u8>) -> Seq<char> {
    b.map_values(|x: u8| x as char)
}

proof fn lemma_run_end(h: Seq<u8>, j: int, k: int)
    requires
        0 <= j <= k <= h.len(),
        forall|m: int| j <= m < k ==> version_byte(#[trigger] h[m]),
    ensures
        run_end(h, j) == run_end(h, k),
    decreases k - j,
{
    if j < k {
        lemma_run_end(h, j + 1, k);
    }
}

fn ascii_string(h: &[u8], from: usize, to: usize) -> (s: String)
    requires
        from <= to <= h@.len(),
    ensures
        s@ == ascii_chars(h@.subrange(from as int, to as int)),
{
    let mut v: Vec<char> = Vec::new();
    let mut i = from;
    while i < to
        invariant
            from <= i <= to <= h@.len(),
            v@ == ascii_chars(h@.subrange(from as int, i as int)),
        decreases to - i,
    {
        v.push(h[i] as char);
        i += 1;
        assert(v@ =~= ascii_chars(h@.subrange(from as int, i as int)));
    }
    crate::text::string_of(&v)
}

/// The version after the first usable occurrence of `tag` in `haystack`
/// (`Electron/31.2.1` with tag `Electron/` gives `31.2.1`).
#[verifier::loop_isolation(false)]
pub fn find_version_after_tag(haystack: &[u8], tag: &[u8]) -> (r: Option<String>)
    ensures
        match r {
            Some(s) => scan_tag(haystack@, tag@, 0) matches Some(run) && s@ == ascii_chars(run),
            None => scan_tag(haystack@, tag@, 0) is None,
        },
{
    let h = haystack;
    if tag.len() == 0 || h.len() < tag.len() {
        return None;
    }
    let mut i: usize = 0;
    let hl = h.len();
    let last = hl - tag.len();
    while i <= last
        invariant
            hl == h@.len(),
            tag@.len() > 0,
            tag@.len() <= h@.len(),
            last == h@.len() - tag@.len(),
            scan_tag(h@, tag@, 0) == scan_tag(h@, tag@, i as int),
        decreases h@.len() - i,
    {
        // does the tag occur at i?
        let mut j: usize = 0;
        let mut same = true;
        while j < tag.len()
            invariant
                i + tag@.len() <= h@.len(),
                j <= tag@.len(),
                same == (forall|m: int| 0 <= m < j ==> h@[i + m] == tag@[m]),
            decreases tag@.len() - j,
        {
            if h[i + j] != tag[j] {
                same = false;
            }
            j += 1;
        }
        assert(same == (h@.subrange(i as int, i + tag@.len()) == tag@)) by {
            if same {
                assert(h@.subrange(i as int, i + tag@.len()) =~= tag@);
            } else if h@.subrange(i as int, i + tag@.len()) == tag@ {
                let m = choose|m: int| 0 <= m < j && h@[i + m] != tag@[m];
                assert(h@.subrange(i as int, i + tag@.len())[m] == h@[i + m]);
            }
        }
        if same {
            let start = i + tag.len();
            let mut end = start;
            while end < h.len() && is_version_byte(h[end])
                invariant
                    start <= end <= h@.len(),
                    forall|m: int| start <= m < end ==> version_byte(#[trigger] h@[m]),
                decreases h@.len() - end,
            {
                end += 1;
            }
            proof {
                lemma_run_end(h@, start as int, end as int);
            }
            assert(run_end(h@, start as int) == end);
            let mut has_dot = false;
            let mut k = start;
            while k < end
                invariant
                    start <= k <= end <= h@.len(),
                    has_dot == exists|m: int| start <= m < k && h@[m] == 46u8,
                decreases end - k,
            {
                if h[k] == 46 {
                    has_dot = true;
                }
                k += 1;
            }
            let ghost run = h@.subrange(start as int, end as int);
            assert(has_dot == run.contains(46u8)) by {
                if has_dot {
                    let m = choose|m: int| start <= m < end && h@[m] == 46u8;
                    assert(run[m - start] == 46u8);
                }
                if run.contains(46u8) {
                    let m = choose|m: int| 0 <= m < run.len() && run[m] == 46u8;
                    assert(h@[start + m] == 46u8);
                }
            }
            if has_dot && end > start && 48 <= h[start] && h[start] <= 57 {
                assert(run[0] == h@[start as int]);
                assert(scan_tag(h@, tag@, i as int) == Some(run));
                return Some(ascii_string(h, start, end));
            }
            i = if end > i {
                end
            } else {
                i + 1
            };
        } else {
            i += 1;
        }
    }
    None
}

pub open spec fn electron_tag() -> Seq<u8> {
    "Electron/"@.map_values(|c: char| c as u8)
}

pub open spec fn chrome_tag() -> Seq<u8> {
    "Chrome/"@.map_values(|c: char| c as u8)
}

/// The version after `Electron/`, else the one after `Chrome/`.
pub open spec fn electron_version_spec(b: Seq<u8>) -> Option<Seq<u8>> {
    match scan_tag(b, electron_tag(), 0) {
        Some(run) => Some(run),
        None => scan_tag(b, chrome_tag(), 0),
    }
}

/// The Electron version, else the Chrome version, found in an app binary.
pub fn electron_version_in(bytes: &[u8]) -> (r: Option<String>)
    ensures
        match r {
            Some(s) => electron_version_spec(bytes@) matches Some(run) && s@ == ascii_chars(run),
            None => electron_version_spec(bytes@) is None,
        },
{
    proof {
        reveal_strlit("Electron/");
        reveal_strlit("Chrome/");
    }
    let e = ascii_bytes("Electron/");
    match find_version_after_tag(bytes, e.as_slice()) {
        Some(v) => Some(v),
        None => {
            let c = ascii_bytes("Chrome/");
            find_version_after_tag(bytes, c.as_slice())
        },
    }
}

fn ascii_bytes(s: &str) -> (out: Vec<u8>)
    requires
        s.is_ascii(),
    ensures
        out@ == s@.map_values(|c: char| c as u8),
{
    let cs = chars_of(s);
    let mut out: Vec<u8> = Vec::new();
    let mut i: usize = 0;
    while i < cs.len()
        invariant
            i <= cs.len(),
            cs@ == s@,
            out@ == s@.take(i as int).map_values(|c: char| c as u8),
        decreases cs.len() - i,
    {
        out.push(cs[i] as u8);
        i += 1;
        assert(out@ =~= s@.take(i as int).map_values(|c: char| c as u8));
    }
    assert(s@.take(cs.len() as int) =~= s@);
    out
}

// ------------------------------------------------------------------ Ozone flags

/// An argument that turns on the Ozone/Wayland backend:
/// `--ozone-platform=wayland`, `--ozone-platform-hint=wayland`, or an
/// `--enable-features=` list that holds `UseOzonePlatform`.
pub open spec fn is_ozone_wayland_flag_spec(arg: Seq<char>) -> bool {
    ||| arg == "--ozone-platform=wayland"@
    ||| arg == "--ozone-platform-hint=wayland"@
    ||| (starts_with(arg, "--enable-features="@) && split_char(
        arg.skip("--enable-features="@.len() as int),
        ',',
    ).contains("UseOzonePlatform"@))
}

proof fn lemma_pieces_after_sep(x: Seq<char>, y: Seq<char>, c: char, cur: Seq<char>)
    requires
        x.len() > 0,
        x.last() == c,
    ensures
        crate::text::pieces_acc(x + y, c, cur) == crate::text::pieces_acc(x, c, cur).drop_last()
            + crate::text::pieces_acc(y, c, seq![]),
    decreases x.len(),
{
    let xy = x + y;
    assert(xy.drop_first() =~= x.drop_first() + y);
    if x[0] == c {
        if x.len() == 1 {
            assert(x.drop_first() + y =~= y);
            let e = x.drop_first();
            assert(e.len() == 0);
            assert(crate::text::pieces_acc(e, c, seq![]) == seq![Seq::<char>::empty()]);
            assert(crate::text::pieces_acc(x, c, cur) == seq![cur] + crate::text::pieces_acc(e, c, seq![]));
            assert((seq![cur] + seq![Seq::<char>::empty()]).drop_last() =~= seq![cur]);
            assert(crate::text::pieces_acc(x + y, c, cur) == seq![cur] + crate::text::pieces_acc(e + y, c, seq![]));
        } else {
            assert(x.drop_first().last() == x.last());
            lemma_pieces_after_sep(x.drop_first(), y, c, seq![]);
            crate::packageops::lemma_pieces_nonempty(x.drop_first(), c, seq![]);
            let p = crate::text::pieces_acc(x.drop_first(), c, seq![]);
            assert((seq![cur] + p).drop_last() =~= seq![cur] + p.drop_last());
            assert(seq![cur] + (p.drop_last() + crate::text::pieces_acc(y, c, seq![])) =~= (seq![cur]
                + p.drop_last()) + crate::text::pieces_acc(y, c, seq![]));
        }
    } else {
        assert(x.len() > 1);
        assert(x.drop_first().last() == x.last());
        lemma_pieces_after_sep(x.drop_first(), y, c, cur.push(x[0]));
    }
}

proof fn lemma_first_piece(w: Seq<char>, b: Seq<char>, c: char, cur: Seq<char>)
    requires
        !w.contains(c),
        b.len() == 0 || b[0] == c,
    ensures
        crate::text::pieces_acc(w + b, c, cur)[0] == cur + w,
    decreases w.len(),
{
    if w.len() == 0 {
        assert(w + b =~= b);
        assert(cur + w =~= cur);
    } else {
        assert(w[0] != c) by {
            assert(w.contains(w[0]) || true);
            if w[0] == c {
                assert(w.contains(c));
            }
        }
        assert((w + b).drop_first() =~= w.drop_first() + b);
        assert(!w.drop_first().contains(c)) by {
            if w.drop_first().contains(c) {
                let k = choose|k: int| 0 <= k < w.drop_first().len() && w.drop_first()[k] == c;
                assert(w[k + 1] == c);
            }
        }
        lemma_first_piece(w.drop_first(), b, c, cur.push(w[0]));
        assert(cur.push(w[0]) + w.drop_first() =~= cur + w);
    }
}

/// `--ozone-platform=wayland` and `--ozone-platform-hint=wayland` turn on
/// the Ozone/Wayland backend, and so does any `--enable-features=` list
/// that holds `UseOzonePlatform` as one of its comma-separated entries,
/// wherever in the list it stands; an argument of another form does not.
pub proof fn law_ozone_flags(a: Seq<char>, b: Seq<char>, arg: Seq<char>)
    ensures
        is_ozone_wayland_flag_spec("--ozone-platform=wayland"@),
        is_ozone_wayland_flag_spec("--ozone-platform-hint=wayland"@),
        (a.len() == 0 || a.last() == ',') && (b.len() == 0 || b[0] == ',') ==> is_ozone_wayland_flag_spec(
            "--enable-features="@ + a + "UseOzonePlatform"@ + b,
        ),
        arg != "--ozone-platform=wayland"@ && arg != "--ozone-platform-hint=wayland"@ && !starts_with(arg, "--enable-features="@)
            ==> !is_ozone_wayland_flag_spec(arg),
{
    reveal_strlit("UseOzonePlatform");
    let u = "UseOzonePlatform"@;
    if (a.len() == 0 || a.last() == ',') && (b.len() == 0 || b[0] == ',') {
        let pre = "--enable-features="@;
        let arg2 = pre + a + u + b;
        assert(arg2.take(pre.len() as int) =~= pre);
        let rest = arg2.skip(pre.len() as int);
        assert(rest =~= a + (u + b));
        assert(!u.contains(',')) by {
            if u.contains(',') {
                let k = choose|k: int| 0 <= k < u.len() && u[k] == ',';
            }
        }
        lemma_first_piece(u, b, ',', seq![]);
        assert(Seq::<char>::empty() + u =~= u);
        assert(starts_with(arg2, pre));
        if a.len() == 0 {
            assert(a + (u + b) =~= u + b);
            assert(crate::text::split_char(rest, ',')[0] == u);
            crate::packageops::lemma_pieces_nonempty(rest, ',', seq![]);
            assert(crate::text::split_char(rest, ',').contains(u));
        } else {
            lemma_pieces_after_sep(a, u + b, ',', seq![]);
            let p = crate::text::pieces_acc(a, ',', seq![]).drop_last();
            let q = crate::text::pieces_acc(u + b, ',', seq![]);
            crate::packageops::lemma_pieces_nonempty(u + b, ',', seq![]);
            assert(q[0] == u);
            assert(crate::text::split_char(rest, ',') == p + q);
            assert((p + q)[p.len() as int] == u);
            assert(crate::text::split_char(rest, ',').contains(u));
        }
        assert(is_ozone_wayland_flag_spec(arg2));
    }
}

#[verifier::loop_isolation(false)]
pub fn is_ozone_wayland_flag(arg: &str) -> (b: bool)
    ensures
        b == is_ozone_wayland_flag_spec(arg@),
{
    let a = chars_of(arg);
    if eq_str(&a, "--ozone-platform=wayland") || eq_str(&a, "--ozone-platform-hint=wayland") {
        return true;
    }
    if !has_prefix_str(&a, "--enable-features=") {
        return false;
    }
    let n = chars_of("--enable-features=").len();
    let rest = slice_of(&a, n, a.len());
    assert(rest@ =~= a@.skip(n as int));
    let parts = split_char_exec(&rest, ',');
    assert(views(parts@) == split_char(arg@.skip("--enable-features="@.len() as int), ','));
    let mut i: usize = 0;
    while i < parts.len()
        invariant
            i <= parts.len(),
            forall|j: int| 0 <= j < i ==> views(parts@)[j] != "UseOzonePlatform"@,
        decreases parts.len() - i,
    {
        if eq_str(&parts[i], "UseOzonePlatform") {
            assert(views(parts@)[i as int] == "UseOzonePlatform"@);
            assert(views(parts@).contains("UseOzonePlatform"@));
            return true;
        }
        i += 1;
    }
    assert(!views(parts@).contains("UseOzonePlatform"@)) by {
        if views(parts@).contains("UseOzonePlatform"@) {
            let j = choose|j: int| 0 <= j < views(parts@).len() && views(parts@)[j] == "UseOzonePlatform"@;
        }
    }
    false
}

/// Some running copy has an Ozone/Wayland flag.
pub open spec fn any_ozone_flag(running: Seq<Seq<Seq<char>>>) -> bool {
    exists|i: int, j: int|
        0 <= i < running.len() && 0 <= j < running[i].len() && is_ozone_wayland_flag_spec(
            #[trigger] running[i][j],
        )
}

/// The argument vectors as character sequences.
pub open spec fn argv_views(running: Seq<Vec<String>>) -> Seq<Seq<Seq<char>>> {
    Seq::new(running.len(), |i: int| Seq::new(running[i]@.len(), |j: int| running[i]@[j]@))
}

/// Whether the app uses Ozone/Wayland, from the argv of its running copies:
/// `Some(true)` when a copy has the flag, `Some(false)` when copies run
/// without it or none runs on a Wayland session, `None` otherwise.
pub fn derive_uses_wayland(running: &Vec<Vec<String>>, session_is_wayland: bool) -> (r: Option<bool>)
    ensures
        r == (if any_ozone_flag(argv_views(running@)) {
            Some(true)
        } else if running@.len() > 0 {
            Some(false)
        } else if session_is_wayland {
            Some(false)
        } else {
            None
        }),
{
    let ghost av = argv_views(running@);
    let mut i: usize = 0;
    while i < running.len()
        invariant
            i <= running.len(),
            av == argv_views(running@),
            forall|a: int, b: int|
                0 <= a < i && 0 <= b < av[a].len() ==> !is_ozone_wayland_flag_spec(#[trigger] av[a][b]),
        decreases running.len() - i,
    {
        let argv = &running[i];
        let mut j: usize = 0;
        while j < argv.len()
            invariant
                i < running.len(),
                argv == &running@[i as int],
                av == argv_views(running@),
                j <= argv.len(),
                forall|b: int| 0 <= b < j ==> !is_ozone_wayland_flag_spec(#[trigger] av[i as int][b]),
            decreases argv.len() - j,
        {
            assert(av[i as int][j as int] == argv@[j as int]@);
            if is_ozone_wayland_flag(argv[j].as_str()) {
                assert(is_ozone_wayland_flag_spec(av[i as int][j as int]));
                return Some(true);
            }
            j += 1;
        }
        i += 1;
    }
    if running.len() > 0 {
        Some(false)
    } else if session_is_wayland {
        Some(false)
    } else {
        None
    }
}

} // verus!
