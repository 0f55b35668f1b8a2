//! Reading which engine packages are installed out of `dpkg-query`,
//! `rpm -q` and `pacman -Q` output, and which framework a package's name
//! belongs to.
use crate::model::ImFramework;
use crate::text::{chars_of, contains_seq, is_ws, lines, slice_of, split_lines, split_once, split_once_exec, starts_with, string_of, trim, trim_vec, views};
use vstd::prelude::*;

verus! {

/// The engine packages the detector asks about.
pub open spec fn vietnamese_packages() -> Seq<Seq<char>> {
    seq!["ibus-bamboo"@, "ibus-unikey"@, "fcitx5-bamboo"@, "fcitx5-unikey"@]
}

fn push_packages<'a>(args: &mut Vec<&'a str>)
    ensures
        crate::packageops::str_views(final(args)@) == crate::packageops::str_views(old(args)@) + vietnamese_packages(),
{
    let ghost a0 = crate::packageops::str_views(args@);
    args.push("ibus-bamboo");
    args.push("ibus-unikey");
    args.push("fcitx5-bamboo");
    args.push("fcitx5-unikey");
    assert(crate::packageops::str_views(args@) =~= a0 + vietnamese_packages());
}

/// `dpkg-query -W -f='${Package}\t${Version}\n'` and the packages.
pub fn dpkg_engine_query_args() -> (a: Vec<&'static str>)
    ensures
        crate::packageops::str_views(a@) == seq!["-W"@, "-f=${Package}\t${Version}\n"@] + vietnamese_packages(),
{
    let mut a = vec!["-W", "-f=${Package}\t${Version}\n"];
    assert(crate::packageops::str_views(a@) =~= seq!["-W"@, "-f=${Package}\t${Version}\n"@]);
    push_packages(&mut a);
    a
}

/// `rpm -q --qf "%{NAME}\t%{VERSION}\n"` and the packages.
pub fn rpm_engine_query_args() -> (a: Vec<&'static str>)
    ensures
        crate::packageops::str_views(a@) == seq!["-q"@, "--qf"@, "%{NAME}\t%{VERSION}\n"@] + vietnamese_packages(),
{
    let mut a = vec!["-q", "--qf", "%{NAME}\t%{VERSION}\n"];
    assert(crate::packageops::str_views(a@) =~= seq!["-q"@, "--qf"@, "%{NAME}\t%{VERSION}\n"@]);
    push_packages(&mut a);
    a
}

/// `pacman -Q` and the packages.
pub fn pacman_engine_query_args() -> (a: Vec<&'static str>)
    ensures
        crate::packageops::str_views(a@) == seq!["-Q"@] + vietnamese_packages(),
{
    let mut a = vec!["-Q"];
    assert(crate::packageops::str_views(a@) =~= seq!["-Q"@]);
    push_packages(&mut a);
    a
}

/// The index of the first white-space character, or the length.
pub open spec fn first_ws(s: Seq<char>) -> int
    decreases s.len(),
{
    if s.len() == 0 {
        0
    } else if is_ws(s[0]) {
        0
    } else {
        1 + first_ws(s.drop_first())
    }
}

proof fn lemma_first_ws(s: Seq<char>, i: int)
    requires
        0 <= i <= s.len(),
        forall|j: int| 0 <= j < i ==> !is_ws(#[trigger] s[j]),
        i == s.len() || is_ws(s[i]),
    ensures
        first_ws(s) == i,
    decreases i,
{
    if i > 0 {
        assert forall|j: int| 0 <= j < i - 1 implies !is_ws(#[trigger] s.drop_first()[j]) by {
            assert(!is_ws(s[j + 1]));
        }
        lemma_first_ws(s.drop_first(), i - 1);
    }
}

/// `split_once(char::is_whitespace)`.
pub open spec fn split_once_ws(s: Seq<char>) -> Option<(Seq<char>, Seq<char>)> {
    let i = first_ws(s);
    if i < s.len() {
        Some((s.take(i), s.skip(i + 1)))
    } else {
        None
    }
}

fn split_once_ws_exec(s: &Vec<char>) -> (r: Option<(Vec<char>, Vec<char>)>)
    ensures
        match r {
            Some(p) => split_once_ws(s@) == Some((p.0@, p.1@)),
            None => split_once_ws(s@) is None,
        },
{
    let mut i: usize = 0;
    while i < s.len() && !crate::text::is_whitespace(s[i])
        invariant
            i <= s.len(),
            forall|j: int| 0 <= j < i ==> !is_ws(#[trigger] s@[j]),
        decreases s.len() - i,
    {
        i += 1;
    }
    proof {
        lemma_first_ws(s@, i as int);
    }
    if i < s.len() {
        let a = slice_of(s, 0, i);
        let b = slice_of(s, i + 1, s.len());
        assert(a@ =~= s@.take(i as int));
        assert(b@ =~= s@.skip(i + 1));
        Some((a, b))
    } else {
        None
    }
}

/// A package and its version, as found on one line.
pub type Row = (Seq<char>, Seq<char>);

/// `dpkg-query` lines: `name<TAB>version`, or split at the first white
/// space where there is no tab; both parts trimmed.
pub open spec fn dpkg_row_of(raw: Seq<char>) -> Option<Row> {
    let l = trim(raw);
    if l.len() == 0 {
        None
    } else {
        match split_once(l, '\t') {
            Some(p) => Some((trim(p.0), trim(p.1))),
            None => match split_once_ws(l) {
                Some(p) => Some((trim(p.0), trim(p.1))),
                None => None,
            },
        }
    }
}

/// `rpm -q` lines: `name<TAB>version`; `package … is not installed`
/// lines are skipped.
pub open spec fn rpm_row_of(raw: Seq<char>) -> Option<Row> {
    let l = trim(raw);
    if l.len() == 0 || contains_seq(l, "is not installed"@) {
        None
    } else {
        match split_once(l, '\t') {
            Some(p) => Some((trim(p.0), trim(p.1))),
            None => None,
        }
    }
}

/// `pacman -Q` lines: `name version`; `error:` lines are skipped.
pub open spec fn pacman_row_of(raw: Seq<char>) -> Option<Row> {
    let l = trim(raw);
    if l.len() == 0 || starts_with(l, "error:"@) {
        None
    } else {
        match split_once_ws(l) {
            Some(p) => Some((trim(p.0), trim(p.1))),
            None => None,
        }
    }
}

/// Which package manager's output is read.
#[derive(Debug, Clone, Copy, PartialEq, Eq, Structural)]
pub enum QueryTool {
    Dpkg,
    Rpm,
    Pacman,
}

pub open spec fn row_of(tool: QueryTool, raw: Seq<char>) -> Option<Row> {
    match tool {
        QueryTool::Dpkg => dpkg_row_of(raw),
        QueryTool::Rpm => rpm_row_of(raw),
        QueryTool::Pacman => pacman_row_of(raw),
    }
}

pub open spec fn rows_of(tool: QueryTool, ls: Seq<Seq<char>>) -> Seq<Row>
    decreases ls.len(),
{
    if ls.len() == 0 {
        seq![]
    } else {
        let r = rows_of(tool, ls.drop_last());
        match row_of(tool, ls.last()) {
            Some(x) => r.push(x),
            None => r,
        }
    }
}

pub open spec fn row_views(v: Seq<(String, String)>) -> Seq<Row> {
    Seq::new(v.len(), |i: int| (v[i].0@, v[i].1@))
}

fn row_exec(tool: QueryTool, raw: &Vec<char>) -> (r: Option<(String, String)>)
    ensures
        match r {
            Some(p) => row_of(tool, raw@) == Some((p.0@, p.1@)),
            None => row_of(tool, raw@) is None,
        },
{
    let l = trim_vec(raw);
    if l.len() == 0 {
        return None;
    }
    let parts = match tool {
        QueryTool::Dpkg => match split_once_exec(&l, '\t') {
            Some(p) => Some(p),
            None => split_once_ws_exec(&l),
        },
        QueryTool::Rpm => {
            if crate::text::contains_str(&l, "is not installed") {
                return None;
            }
            split_once_exec(&l, '\t')
        },
        QueryTool::Pacman => {
            if crate::text::has_prefix_str(&l, "error:") {
                return None;
            }
            split_once_ws_exec(&l)
        },
    };
    match parts {
        Some((a, b)) => Some((string_of(&trim_vec(&a)), string_of(&trim_vec(&b)))),
        None => None,
    }
}

/// The `(package, version)` rows of a query tool's output, in order.
pub fn package_rows(tool: QueryTool, stdout: &str) -> (out: Vec<(String, String)>)
    ensures
        row_views(out@) == rows_of(tool, lines(stdout@)),
{
    let chars = chars_of(stdout);
    let ls = split_lines(&chars);
    let ghost all = views(ls@);
    let mut out: Vec<(String, String)> = Vec::new();
    let mut i: usize = 0;
    assert(all.take(0) =~= Seq::<Seq<char>>::empty());
    assert(row_views(out@) =~= Seq::<Row>::empty());
    while i < ls.len()
        invariant
            i <= ls.len(),
            all == views(ls@),
            all == lines(stdout@),
            row_views(out@) == rows_of(tool, all.take(i as int)),
        decreases ls.len() - i,
    {
        assert(all.take(i + 1).drop_last() =~= all.take(i as int));
        assert(all.take(i + 1).last() == ls@[i as int]@);
        match row_exec(tool, &ls[i]) {
            Some(p) => {
                let ghost before = row_views(out@);
                let ghost pv = (p.0@, p.1@);
                out.push(p);
                assert(row_views(out@) =~= before.push(pv));
            },
            None => {},
        }
        i += 1;
    }
    assert(all.take(ls.len() as int) =~= all);
    out
}

/// The framework and engine id a package's name gives: `ibus-X` and
/// `fcitx5-X` with a non-empty `X`.
pub open spec fn engine_of_package_spec(pkg: Seq<char>) -> Option<(ImFramework, Seq<char>)> {
    if starts_with(pkg, "ibus-"@) && pkg.len() > 5 {
        Some((ImFramework::Ibus, pkg.skip(5)))
    } else if starts_with(pkg, "fcitx5-"@) && pkg.len() > 7 {
        Some((ImFramework::Fcitx5, pkg.skip(7)))
    } else {
        None
    }
}

/// Splits a package name into its framework and engine id.
pub fn engine_of_package(pkg: &str) -> (r: Option<(ImFramework, String)>)
    ensures
        match r {
            Some((f, id)) => engine_of_package_spec(pkg@) == Some((f, id@)),
            None => engine_of_package_spec(pkg@) is None,
        },
{
    let c = chars_of(pkg);
    proof {
        reveal_strlit("ibus-");
        reveal_strlit("fcitx5-");
    }
    if crate::text::has_prefix_str(&c, "ibus-") {
        if c.len() > 5 {
            let rest = slice_of(&c, 5, c.len());
            assert(rest@ =~= pkg@.skip(5));
            return Some((ImFramework::Ibus, string_of(&rest)));
        }
        return None;
    }
    if crate::text::has_prefix_str(&c, "fcitx5-") && c.len() > 7 {
        let rest = slice_of(&c, 7, c.len());
        assert(rest@ =~= pkg@.skip(7));
        return Some((ImFramework::Fcitx5, string_of(&rest)));
    }
    None
}

} // verus!
