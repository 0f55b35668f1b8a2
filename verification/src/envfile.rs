//! Env-file parser and writer for the installer.
//!
//! The installer edits three flavours of env file (`/etc/environment`,
//! `~/.profile`, `~/.config/environment.d/*.conf`). It only ever touches
//! the lines between the two managed-block markers; everything above and
//! below the block is kept as it was read. A file whose markers are out of
//! order is refused so it is never made worse.
use crate::managed::{pairs_map, sorted, ManagedVars};
use crate::text::{
    append_chars, append_str, chars_of, has_prefix_str, is_alnum, seq_eq, slice_of, split_lines,
    split_once, split_once_exec, starts_with, string_of, trim, trim_vec, views, lines,
};
use vstd::prelude::*;

verus! {

/// Marker that opens the installer-managed block.
pub const MARKER_START: &'static str = "# >>> VietIME managed start >>>";

/// Marker that closes the installer-managed block.
pub const MARKER_END: &'static str = "# <<< VietIME managed end <<<";

/// Notice written as the first line inside the managed block. Not parsed.
pub const MANAGED_HINT: &'static str = "# This block is managed by `vietime install`. Do not edit by hand — run `vietime rollback` or re-run install to change it.";

/// How assignments are written inside the managed block.
#[derive(Debug, Clone, Copy, PartialEq, Eq, Structural)]
pub enum Format {
    /// `KEY=VALUE` per line: `/etc/environment` and systemd env files.
    KeyValue,
    /// `export KEY=VALUE` per line: `~/.profile`.
    PosixShellExport,
}

/// Why an env file was refused.
#[derive(Debug)]
pub enum EnvFileError {
    /// An opening marker with no closing marker, or the other way round.
    UnbalancedMarkers,
    /// More than one managed block.
    MultipleManagedBlocks,
    /// A line inside the block that is neither blank, a comment nor an
    /// assignment. `line` counts from 1 within the block.
    InvalidAssignment { line: usize, raw: String },
}

/// The errors as values of the model.
pub enum EnvFileErrorView {
    UnbalancedMarkers,
    MultipleManagedBlocks,
    InvalidAssignment { line: nat, raw: Seq<char> },
}

impl View for EnvFileError {
    type V = EnvFileErrorView;

    open spec fn view(&self) -> EnvFileErrorView {
        match self {
            EnvFileError::UnbalancedMarkers => EnvFileErrorView::UnbalancedMarkers,
            EnvFileError::MultipleManagedBlocks => EnvFileErrorView::MultipleManagedBlocks,
            EnvFileError::InvalidAssignment { line, raw } => EnvFileErrorView::InvalidAssignment {
                line: *line as nat,
                raw: raw@,
            },
        }
    }
}

/// Where a line falls while scanning a file.
#[derive(Debug, Clone, Copy, PartialEq, Eq, Structural)]
pub enum ParseState {
    Prefix,
    InBlock,
    Suffix,
}

// ------------------------------------------------------------------ model

/// A key as the parser accepts it: ASCII letters, digits and `_`.
pub open spec fn is_key_char(c: char) -> bool {
    is_alnum(c) || c == '_'
}

pub open spec fn valid_key(k: Seq<char>) -> bool {
    k.len() > 0 && forall|i: int| 0 <= i < k.len() ==> is_key_char(#[trigger] k[i])
}

pub open spec fn strip_lead(s: Seq<char>, c: char) -> Seq<char>
    decreases s.len(),
{
    if s.len() > 0 && s[0] == c {
        strip_lead(s.drop_first(), c)
    } else {
        s
    }
}

pub open spec fn strip_trail(s: Seq<char>, c: char) -> Seq<char>
    decreases s.len(),
{
    if s.len() > 0 && s.last() == c {
        strip_trail(s.drop_last(), c)
    } else {
        s
    }
}

/// `str::trim_matches(c)`: every leading and trailing `c` removed.
pub open spec fn trim_matches(s: Seq<char>, c: char) -> Seq<char> {
    strip_trail(strip_lead(s, c), c)
}

/// A value as read back: white space, then double quotes, then single
/// quotes stripped from both ends.
pub open spec fn parse_value(v: Seq<char>) -> Seq<char> {
    trim_matches(trim_matches(trim(v), '"'), '\'')
}

/// The part of a trimmed line that holds the assignment.
pub open spec fn line_body(t: Seq<char>, format: Format) -> Option<Seq<char>> {
    match format {
        Format::KeyValue => Some(t),
        Format::PosixShellExport => if starts_with(t, "export "@) {
            Some(t.skip("export "@.len() as int))
        } else {
            None
        },
    }
}

/// One trimmed line of the block read as an assignment.
pub open spec fn parse_line_spec(t: Seq<char>, format: Format) -> Option<(Seq<char>, Seq<char>)> {
    match line_body(t, format) {
        None => None,
        Some(body) => match split_once(body, '=') {
            None => None,
            Some(kv) => {
                let k = trim(kv.0);
                if valid_key(k) {
                    Some((k, parse_value(kv.1)))
                } else {
                    None
                }
            },
        },
    }
}

pub open spec fn format_line_spec(k: Seq<char>, v: Seq<char>, format: Format) -> Seq<char> {
    match format {
        Format::KeyValue => k + seq!['='] + v,
        Format::PosixShellExport => "export "@ + k + seq!['='] + v,
    }
}

/// State of the line scan: where we are, the lines above, inside and below
/// the block, and whether a block was opened.
pub type ScanParts = (ParseState, Seq<Seq<char>>, Seq<Seq<char>>, Seq<Seq<char>>, bool);

pub open spec fn scan_step(acc: Result<ScanParts, EnvFileErrorView>, line: Seq<char>) -> Result<
    ScanParts,
    EnvFileErrorView,
> {
    match acc {
        Err(e) => Err(e),
        Ok(p) => {
            let (st, pre, blk, suf, seen) = p;
            if trim(line) == MARKER_START@ {
                if st != ParseState::Prefix {
                    Err(EnvFileErrorView::MultipleManagedBlocks)
                } else {
                    Ok((ParseState::InBlock, pre, blk, suf, true))
                }
            } else if trim(line) == MARKER_END@ {
                if st != ParseState::InBlock {
                    Err(EnvFileErrorView::UnbalancedMarkers)
                } else {
                    Ok((ParseState::Suffix, pre, blk, suf, seen))
                }
            } else {
                match st {
                    ParseState::Prefix => Ok((st, pre.push(line), blk, suf, seen)),
                    ParseState::InBlock => Ok((st, pre, blk.push(line), suf, seen)),
                    ParseState::Suffix => Ok((st, pre, blk, suf.push(line), seen)),
                }
            }
        },
    }
}

/// The scan over all lines, first line first.
pub open spec fn scan(ls: Seq<Seq<char>>) -> Result<ScanParts, EnvFileErrorView>
    decreases ls.len(),
{
    if ls.len() == 0 {
        Ok((ParseState::Prefix, seq![], seq![], seq![], false))
    } else {
        scan_step(scan(ls.drop_last()), ls.last())
    }
}

pub open spec fn block_step(
    acc: Result<Seq<(Seq<char>, Seq<char>)>, EnvFileErrorView>,
    idx: int,
    raw: Seq<char>,
    format: Format,
) -> Result<Seq<(Seq<char>, Seq<char>)>, EnvFileErrorView> {
    match acc {
        Err(e) => Err(e),
        Ok(ps) => {
            let t = trim(raw);
            if t.len() == 0 || t[0] == '#' {
                Ok(ps)
            } else {
                match parse_line_spec(t, format) {
                    Some(kv) => Ok(ps.push(kv)),
                    None => Err(EnvFileErrorView::InvalidAssignment { line: (idx + 1) as nat, raw }),
                }
            }
        },
    }
}

/// The assignments of the block lines, in order, or the first bad line.
pub open spec fn block_pairs(ls: Seq<Seq<char>>, format: Format) -> Result<
    Seq<(Seq<char>, Seq<char>)>,
    EnvFileErrorView,
>
    decreases ls.len(),
{
    if ls.len() == 0 {
        Ok(seq![])
    } else {
        block_step(block_pairs(ls.drop_last(), format), ls.len() - 1, ls.last(), format)
    }
}

/// Lines joined back, each followed by `\n`.
pub open spec fn join_nl(ls: Seq<Seq<char>>) -> Seq<char>
    decreases ls.len(),
{
    if ls.len() == 0 {
        seq![]
    } else {
        join_nl(ls.drop_last()) + ls.last() + seq!['\n']
    }
}

/// What `parse` reads from `src`: the text above the block, the text below
/// it, the block's assignments in file order, and whether there was a block.
pub open spec fn spec_parse(src: Seq<char>, format: Format) -> Result<
    (Seq<char>, Seq<char>, Seq<(Seq<char>, Seq<char>)>, bool),
    EnvFileErrorView,
> {
    match scan(lines(src)) {
        Err(e) => Err(e),
        Ok(p) => if p.0 == ParseState::InBlock {
            Err(EnvFileErrorView::UnbalancedMarkers)
        } else {
            match block_pairs(p.2, format) {
                Err(e) => Err(e),
                Ok(ps) => Ok((join_nl(p.1), join_nl(p.3), ps, p.4)),
            }
        },
    }
}

pub open spec fn ensure_nl(s: Seq<char>) -> Seq<char> {
    if s.len() > 0 && s.last() == '\n' {
        s
    } else {
        s.push('\n')
    }
}

/// Trailing runs of `\n` collapsed to one.
pub open spec fn collapse_nl(s: Seq<char>) -> Seq<char>
    decreases s.len(),
{
    if s.len() >= 2 && s.last() == '\n' && s[s.len() - 2] == '\n' {
        collapse_nl(s.drop_last())
    } else {
        s
    }
}

pub open spec fn entries_text(e: Seq<(Seq<char>, Seq<char>)>, format: Format) -> Seq<char>
    decreases e.len(),
{
    if e.len() == 0 {
        seq![]
    } else {
        entries_text(e.drop_last(), format) + format_line_spec(e.last().0, e.last().1, format)
            + seq!['\n']
    }
}

/// The managed block as written: markers, notice, one line per pair.
pub open spec fn block_text(e: Seq<(Seq<char>, Seq<char>)>, format: Format) -> Seq<char> {
    MARKER_START@ + seq!['\n'] + MANAGED_HINT@ + seq!['\n'] + entries_text(e, format)
        + MARKER_END@ + seq!['\n']
}

/// The model of a parsed env file.
pub struct EnvFileDocView {
    pub prefix: Seq<char>,
    pub suffix: Seq<char>,
    pub entries: Seq<(Seq<char>, Seq<char>)>,
    pub had_block: bool,
    pub format: Format,
}

/// The file text `render` writes for a document.
pub open spec fn render_spec(d: EnvFileDocView) -> Seq<char> {
    let head = ensure_nl(d.prefix);
    let body = if d.had_block || d.entries.len() > 0 {
        head + block_text(d.entries, d.format)
    } else {
        head
    };
    collapse_nl(ensure_nl(body + d.suffix))
}

// ------------------------------------------------------------------ lemmas

pub proof fn lemma_scan_err(ls: Seq<Seq<char>>, i: int)
    requires
        0 <= i <= ls.len(),
        scan(ls.take(i)) is Err,
    ensures
        scan(ls) == scan(ls.take(i)),
    decreases ls.len() - i,
{
    if i < ls.len() {
        assert(ls.take(i + 1).drop_last() =~= ls.take(i));
        lemma_scan_err(ls, i + 1);
    } else {
        assert(ls.take(i) =~= ls);
    }
}

pub proof fn lemma_block_err(ls: Seq<Seq<char>>, i: int, format: Format)
    requires
        0 <= i <= ls.len(),
        block_pairs(ls.take(i), format) is Err,
    ensures
        block_pairs(ls, format) == block_pairs(ls.take(i), format),
    decreases ls.len() - i,
{
    if i < ls.len() {
        assert(ls.take(i + 1).drop_last() =~= ls.take(i));
        lemma_block_err(ls, i + 1, format);
    } else {
        assert(ls.take(i) =~= ls);
    }
}

proof fn lemma_strip_lead(s: Seq<char>, c: char, i: int)
    requires
        0 <= i <= s.len(),
        forall|j: int| 0 <= j < i ==> #[trigger] s[j] == c,
        i == s.len() || s[i] != c,
    ensures
        strip_lead(s, c) == s.skip(i),
    decreases i,
{
    if i > 0 {
        assert forall|j: int| 0 <= j < i - 1 implies #[trigger] s.drop_first()[j] == c by {
            assert(s[j + 1] == c);
        }
        lemma_strip_lead(s.drop_first(), c, i - 1);
        assert(s.drop_first().skip(i - 1) =~= s.skip(i));
    } else {
        assert(s.skip(0) =~= s);
    }
}

proof fn lemma_strip_trail(s: Seq<char>, c: char, i: int)
    requires
        0 <= i <= s.len(),
        forall|j: int| i <= j < s.len() ==> #[trigger] s[j] == c,
        i == 0 || s[i - 1] != c,
    ensures
        strip_trail(s, c) == s.take(i),
    decreases s.len() - i,
{
    if i < s.len() {
        assert forall|j: int| i <= j < s.len() - 1 implies #[trigger] s.drop_last()[j] == c by {
            assert(s[j] == c);
        }
        lemma_strip_trail(s.drop_last(), c, i);
        assert(s.drop_last().take(i) =~= s.take(i));
    } else {
        assert(s.take(i) =~= s);
    }
}

// ------------------------------------------------------------------ helpers

/// `trim_matches(c)` on a character vector.
fn trim_matches_vec(s: &Vec<char>, c: char) -> (out: Vec<char>)
    ensures
        out@ == trim_matches(s@, c),
{
    let mut a: usize = 0;
    while a < s.len() && s[a] == c
        invariant
            a <= s.len(),
            forall|j: int| 0 <= j < a ==> #[trigger] s@[j] == c,
        decreases s.len() - a,
    {
        a += 1;
    }
    proof {
        lemma_strip_lead(s@, c, a as int);
    }
    let mut b: usize = s.len();
    while b > a && s[b - 1] == c
        invariant
            a <= b <= s.len(),
            forall|j: int| b <= j < s.len() ==> #[trigger] s@[j] == c,
        decreases b,
    {
        b -= 1;
    }
    proof {
        let t = s@.skip(a as int);
        assert forall|j: int| b - a <= j < t.len() implies #[trigger] t[j] == c by {
            assert(t[j] == s@[a + j]);
        }
        lemma_strip_trail(t, c, b - a);
        assert(t.take(b - a) =~= s@.subrange(a as int, b as int));
    }
    slice_of(s, a, b)
}

fn is_key_char_exec(c: char) -> (b: bool)
    ensures
        b == is_key_char(c),
{
    ('0' <= c && c <= '9') || ('a' <= c && c <= 'z') || ('A' <= c && c <= 'Z') || c == '_'
}

fn valid_key_exec(k: &Vec<char>) -> (b: bool)
    ensures
        b == valid_key(k@),
{
    if k.len() == 0 {
        return false;
    }
    let mut i: usize = 0;
    while i < k.len()
        invariant
            i <= k.len(),
            forall|j: int| 0 <= j < i ==> is_key_char(#[trigger] k@[j]),
        decreases k.len() - i,
    {
        if !is_key_char_exec(k[i]) {
            return false;
        }
        i += 1;
    }
    true
}

/// Reads one trimmed line of the block as `(key, value)`.
fn parse_line(t: &Vec<char>, format: Format) -> (r: Option<(Vec<char>, Vec<char>)>)
    ensures
        match r {
            Some(kv) => parse_line_spec(t@, format) == Some((kv.0@, kv.1@)),
            None => parse_line_spec(t@, format) is None,
        },
{
    let body = match format {
        Format::KeyValue => slice_of(t, 0, t.len()),
        Format::PosixShellExport => {
            if !has_prefix_str(t, "export ") {
                return None;
            }
            let n = chars_of("export ").len();
            slice_of(t, n, t.len())
        },
    };
    assert(line_body(t@, format) == Some(body@)) by {
        if format == Format::KeyValue {
            assert(body@ =~= t@);
        }
    }
    let (k, v) = match split_once_exec(&body, '=') {
        Some(kv) => kv,
        None => return None,
    };
    let k = trim_vec(&k);
    if !valid_key_exec(&k) {
        return None;
    }
    let v1 = trim_vec(&v);
    let v2 = trim_matches_vec(&v1, '"');
    let v3 = trim_matches_vec(&v2, '\'');
    Some((k, v3))
}

/// Appends one rendered assignment to `out`.
fn push_line(out: &mut Vec<char>, key: &String, value: &String, format: Format)
    ensures
        final(out)@ == old(out)@ + format_line_spec(key@, value@, format),
{
    if format == Format::PosixShellExport {
        append_str(out, "export ");
    }
    append_str(out, key.as_str());
    out.push('=');
    append_str(out, value.as_str());
    proof {
        match format {
            Format::KeyValue => {
                assert(out@ =~= old(out)@ + (key@ + seq!['='] + value@));
            },
            Format::PosixShellExport => {
                assert(out@ =~= old(out)@ + ("export "@ + key@ + seq!['='] + value@));
            },
        }
    }
}

/// Lines joined back into one string, each followed by `\n`.
fn join_lines(ls: &Vec<Vec<char>>) -> (s: String)
    ensures
        s@ == join_nl(views(ls@)),
{
    let mut out: Vec<char> = Vec::new();
    let mut i: usize = 0;
    while i < ls.len()
        invariant
            i <= ls.len(),
            out@ == join_nl(views(ls@).take(i as int)),
        decreases ls.len() - i,
    {
        append_chars(&mut out, &ls[i]);
        out.push('\n');
        i += 1;
        assert(views(ls@).take(i as int).drop_last() =~= views(ls@).take(i - 1));
    }
    assert(views(ls@).take(ls.len() as int) =~= views(ls@));
    string_of(&out)
}

// ------------------------------------------------------------------ the document

/// An env file split into the text above the managed block, the block's
/// assignments, and the text below it.
#[derive(Debug)]
pub struct EnvFileDoc {
    prefix: String,
    suffix: String,
    managed: ManagedVars,
    had_block: bool,
    format: Format,
}

impl View for EnvFileDoc {
    type V = EnvFileDocView;

    closed spec fn view(&self) -> EnvFileDocView {
        EnvFileDocView {
            prefix: self.prefix@,
            suffix: self.suffix@,
            entries: self.managed@,
            had_block: self.had_block,
            format: self.format,
        }
    }
}

impl EnvFileDoc {
    /// The assignments are sorted by key, so no key occurs twice.
    pub closed spec fn wf(&self) -> bool {
        self.managed.wf()
    }

    /// The managed block as a map from key to value.
    pub open spec fn map(&self) -> Map<Seq<char>, Seq<char>> {
        pairs_map(self@.entries)
    }

    pub proof fn lemma_wf(&self)
        requires
            self.wf(),
        ensures
            sorted(self@.entries),
    {
    }

    /// Parses `source`. Lines above and below the managed block are kept
    /// as read (each ended by `\n`); the block's assignments are read with
    /// `format`, a later assignment of a key overriding an earlier one.
    pub fn parse(source: &str, format: Format) -> (r: Result<EnvFileDoc, EnvFileError>)
        ensures
            r is Ok <==> spec_parse(source@, format) is Ok,
            match r {
                Ok(d) => {
                    let p = spec_parse(source@, format)->Ok_0;
                    &&& d.wf()
                    &&& d@.prefix == p.0
                    &&& d@.suffix == p.1
                    &&& d.map() == pairs_map(p.2)
                    &&& d@.had_block == p.3
                    &&& d@.format == format
                },
                Err(e) => spec_parse(source@, format) == Err::<
                    (Seq<char>, Seq<char>, Seq<(Seq<char>, Seq<char>)>, bool),
                    EnvFileErrorView,
                >(e@),
            },
    {
        let chars = chars_of(source);
        let ls = split_lines(&chars);
        let ghost all = views(ls@);
        let ms = chars_of(MARKER_START);
        let me = chars_of(MARKER_END);
        let mut prefix_lines: Vec<Vec<char>> = Vec::new();
        let mut block_lines: Vec<Vec<char>> = Vec::new();
        let mut suffix_lines: Vec<Vec<char>> = Vec::new();
        let mut state = ParseState::Prefix;
        let mut seen = false;
        let mut i: usize = 0;
        assert(all.take(0) =~= Seq::<Seq<char>>::empty());
        assert(views(prefix_lines@) =~= Seq::<Seq<char>>::empty());
        assert(views(block_lines@) =~= Seq::<Seq<char>>::empty());
        assert(views(suffix_lines@) =~= Seq::<Seq<char>>::empty());
        while i < ls.len()
            invariant
                i <= ls.len(),
                all == views(ls@),
                all == lines(source@),
                ms@ == MARKER_START@,
                me@ == MARKER_END@,
                scan(all.take(i as int)) == Ok::<ScanParts, EnvFileErrorView>(
                    (
                        state,
                        views(prefix_lines@),
                        views(block_lines@),
                        views(suffix_lines@),
                        seen,
                    ),
                ),
            decreases ls.len() - i,
        {
            let line = &ls[i];
            let t = trim_vec(line);
            assert(all.take(i + 1).drop_last() =~= all.take(i as int));
            assert(all.take(i + 1).last() == line@);
            if seq_eq(&t, &ms) {
                if state != ParseState::Prefix {
                    proof {
                        lemma_scan_err(all, i + 1);
                    }
                    return Err(EnvFileError::MultipleManagedBlocks);
                }
                state = ParseState::InBlock;
                seen = true;
            } else if seq_eq(&t, &me) {
                if state != ParseState::InBlock {
                    proof {
                        lemma_scan_err(all, i + 1);
                    }
                    return Err(EnvFileError::UnbalancedMarkers);
                }
                state = ParseState::Suffix;
            } else {
                let copy = slice_of(line, 0, line.len());
                assert(copy@ =~= line@);
                match state {
                    ParseState::Prefix => {
                        let ghost v0 = views(prefix_lines@);
                        prefix_lines.push(copy);
                        assert(views(prefix_lines@) =~= v0.push(line@));
                    },
                    ParseState::InBlock => {
                        let ghost v0 = views(block_lines@);
                        block_lines.push(copy);
                        assert(views(block_lines@) =~= v0.push(line@));
                    },
                    ParseState::Suffix => {
                        let ghost v0 = views(suffix_lines@);
                        suffix_lines.push(copy);
                        assert(views(suffix_lines@) =~= v0.push(line@));
                    },
                }
            }
            i += 1;
        }
        assert(all.take(ls.len() as int) =~= all);
        if state == ParseState::InBlock {
            return Err(EnvFileError::UnbalancedMarkers);
        }
        let ghost blk = views(block_lines@);
        let mut managed = ManagedVars::new();
        let ghost mut pairs: Seq<(Seq<char>, Seq<char>)> = seq![];
        let mut j: usize = 0;
        assert(blk.take(0) =~= Seq::<Seq<char>>::empty());
        while j < block_lines.len()
            invariant
                j <= block_lines.len(),
                blk == views(block_lines@),
                state != ParseState::InBlock,
                scan(lines(source@)) == Ok::<ScanParts, EnvFileErrorView>(
                    (state, views(prefix_lines@), blk, views(suffix_lines@), seen),
                ),
                block_pairs(blk.take(j as int), format) == Ok::<
                    Seq<(Seq<char>, Seq<char>)>,
                    EnvFileErrorView,
                >(pairs),
                managed.wf(),
                managed.map() == pairs_map(pairs),
            decreases block_lines.len() - j,
        {
            let raw = &block_lines[j];
            assert(blk.take(j + 1).drop_last() =~= blk.take(j as int));
            assert(blk.take(j + 1).last() == raw@);
            let t = trim_vec(raw);
            if t.len() == 0 || t[0] == '#' {
            } else {
                match parse_line(&t, format) {
                    Some((k, v)) => {
                        let ks = string_of(&k);
                        let vs = string_of(&v);
                        managed.insert(ks.as_str(), vs.as_str());
                        proof {
                            let kv = (k@, v@);
                            assert(pairs.push(kv).drop_last() =~= pairs);
                            pairs = pairs.push(kv);
                        }
                    },
                    None => {
                        proof {
                            assert(block_pairs(blk.take(j + 1), format) == block_step(
                                block_pairs(blk.take(j as int), format),
                                j as int,
                                raw@,
                                format,
                            ));
                            lemma_block_err(blk, j + 1, format);
                        }
                        return Err(
                            EnvFileError::InvalidAssignment { line: j + 1, raw: string_of(raw) },
                        );
                    },
                }
            }
            j += 1;
        }
        assert(blk.take(block_lines.len() as int) =~= blk);
        let doc = EnvFileDoc {
            prefix: join_lines(&prefix_lines),
            suffix: join_lines(&suffix_lines),
            managed,
            had_block: seen,
            format,
        };
        Ok(doc)
    }

    /// Sets `key` to `value` in the managed block, creating the block if
    /// the file had none.
    pub fn set(&mut self, key: &str, value: &str)
        requires
            old(self).wf(),
        ensures
            final(self).wf(),
            final(self).map() == old(self).map().insert(key@, value@),
            final(self)@.had_block,
            final(self)@.prefix == old(self)@.prefix,
            final(self)@.suffix == old(self)@.suffix,
            final(self)@.format == old(self)@.format,
    {
        self.had_block = true;
        self.managed.insert(key, value);
    }

    /// Removes `key` from the managed block; `true` if it was there.
    pub fn unset(&mut self, key: &str) -> (r: bool)
        requires
            old(self).wf(),
        ensures
            final(self).wf(),
            r == old(self).map().contains_key(key@),
            final(self).map() == old(self).map().remove(key@),
            final(self)@.had_block == old(self)@.had_block,
            final(self)@.prefix == old(self)@.prefix,
            final(self)@.suffix == old(self)@.suffix,
            final(self)@.format == old(self)@.format,
    {
        self.managed.remove(key)
    }

    /// The managed block's assignments, sorted by key.
    pub fn managed(&self) -> (r: &ManagedVars)
        requires
            self.wf(),
        ensures
            r.wf(),
            r@ == self@.entries,
    {
        &self.managed
    }

    /// The whole file as it should be written back. Always ends in exactly
    /// one `\n`.
    pub fn render(&self) -> (s: String)
        ensures
            s@ == render_spec(self@),
    {
        let mut out: Vec<char> = Vec::new();
        append_str(&mut out, self.prefix.as_str());
        if out.len() == 0 || out[out.len() - 1] != '\n' {
            out.push('\n');
        }
        let ghost head = out@;
        assert(head == ensure_nl(self.prefix@));
        let emit = self.had_block || !self.managed.is_empty();
        if emit {
            append_str(&mut out, MARKER_START);
            out.push('\n');
            append_str(&mut out, MANAGED_HINT);
            out.push('\n');
            let ghost opened = out@;
            let ghost e = self.managed@;
            let mut i: usize = 0;
            assert(e.take(0) =~= Seq::<(Seq<char>, Seq<char>)>::empty());
            assert(opened =~= opened + entries_text(e.take(0), self.format));
            while i < self.managed.len()
                invariant
                    i <= self.managed@.len(),
                    e == self.managed@,
                    out@ == opened + entries_text(e.take(i as int), self.format),
                decreases self.managed@.len() - i,
            {
                let (k, v) = self.managed.entry(i);
                push_line(&mut out, k, v, self.format);
                out.push('\n');
                i += 1;
                assert(e.take(i as int).drop_last() =~= e.take(i - 1));
                assert(out@ =~= opened + entries_text(e.take(i as int), self.format));
            }
            assert(e.take(e.len() as int) =~= e);
            append_str(&mut out, MARKER_END);
            out.push('\n');
            assert(out@ =~= head + block_text(e, self.format));
        }
        append_str(&mut out, self.suffix.as_str());
        if out.len() == 0 || out[out.len() - 1] != '\n' {
            out.push('\n');
        }
        let ghost full = out@;
        assert(collapse_nl(out@) == render_spec(self@));
        while out.len() >= 2 && out[out.len() - 1] == '\n' && out[out.len() - 2] == '\n'
            invariant
                collapse_nl(out@) == render_spec(self@),
            decreases out.len(),
        {
            let ghost before = out@;
            out.pop();
            assert(out@ =~= before.drop_last());
        }
        string_of(&out)
    }
}

} // verus!
