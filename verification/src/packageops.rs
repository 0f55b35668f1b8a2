//! The package-manager layer: the privilege prefix, the arguments handed
//! to `apt-get` and `dpkg-query`, and the reading of what `dpkg-query`
//! prints.
use crate::model::PackageManager;
use crate::text::{
    chars_of, lines, pieces_acc, split_char, split_char_exec, split_lines, string_of,
    string_views, trim, trim_vec, views,
};
use vstd::prelude::*;

verus! {

/// `std::io::Error`, carried inside errors.
#[verifier::external_type_specification]
#[verifier::external_body]
pub struct ExIoError(std::io::Error);

/// Why a package-manager call failed.
#[derive(Debug)]
pub enum PackageOpsError {
    /// The program is not on `PATH`.
    ManagerMissing { cmd: &'static str },
    /// The program ran and exited unsuccessfully.
    CommandFailed { cmd: &'static str, status: i32, stderr: String },
    /// Running the program failed for another reason.
    Io { cmd: &'static str, source: std::io::Error },
}

/// Which privilege wrapper, if any, goes in front of a command.
#[derive(Debug, Clone, Copy, PartialEq, Eq, Structural)]
pub enum Sudo {
    /// Run the command directly.
    NoSudo,
    /// `sudo`, which may prompt on the terminal.
    Interactive,
    /// `sudo -n`, which fails rather than prompt.
    Unattended,
}

pub open spec fn sudo_prefix(s: Sudo) -> Seq<Seq<char>> {
    match s {
        Sudo::NoSudo => seq![],
        Sudo::Interactive => seq!["sudo"@],
        Sudo::Unattended => seq!["sudo"@, "-n"@],
    }
}

pub open spec fn str_views(v: Seq<&str>) -> Seq<Seq<char>> {
    Seq::new(v.len(), |i: int| v[i]@)
}

impl Sudo {
    /// The words put in front of the command.
    pub fn args(self) -> (a: Vec<&'static str>)
        ensures
            str_views(a@) == sudo_prefix(self),
    {
        let a: Vec<&'static str> = match self {
            Sudo::NoSudo => Vec::new(),
            Sudo::Interactive => vec!["sudo"],
            Sudo::Unattended => vec!["sudo", "-n"],
        };
        assert(str_views(a@) =~= sudo_prefix(self));
        a
    }
}

/// The `apt-get` / `dpkg-query` implementation of the package layer.
#[derive(Debug, Default, Clone, Copy)]
pub struct AptOps;

impl AptOps {
    /// The package manager this implementation drives.
    pub fn manager(&self) -> (m: PackageManager)
        ensures
            m == PackageManager::Apt,
    {
        PackageManager::Apt
    }
}

/// `fixed` followed by the packages' names.
fn args_then_packages<'a>(fixed: Vec<&'a str>, packages: &'a [String]) -> (a: Vec<&'a str>)
    ensures
        str_views(a@) == str_views(fixed@) + string_views(packages@),
{
    let mut args = fixed;
    let ghost f = str_views(args@);
    let mut i: usize = 0;
    while i < packages.len()
        invariant
            i <= packages.len(),
            str_views(args@) == f + string_views(packages@).take(i as int),
        decreases packages.len() - i,
    {
        let p: &'a str = packages[i].as_str();
        let ghost before = str_views(args@);
        args.push(p);
        assert(str_views(args@) =~= before.push(packages@[i as int]@));
        assert(string_views(packages@).take(i + 1) =~= string_views(packages@).take(i as int).push(packages@[i as int]@));
        i += 1;
    }
    assert(string_views(packages@).take(packages.len() as int) =~= string_views(packages@));
    args
}

pub open spec fn dpkg_format() -> Seq<char> {
    "-f=${Package}\t${db:Status-Status}\n"@
}

/// `dpkg-query -W -f='${Package}\t${db:Status-Status}\n' PKG…`.
pub fn build_dpkg_query_args(packages: &[String]) -> (a: Vec<&str>)
    ensures
        str_views(a@) == seq!["-W"@, dpkg_format()] + string_views(packages@),
{
    let fixed = vec!["-W", "-f=${Package}\t${db:Status-Status}\n"];
    assert(str_views(fixed@) =~= seq!["-W"@, dpkg_format()]);
    args_then_packages(fixed, packages)
}

/// `apt-get install -y --no-install-recommends PKG…`.
pub fn apt_install_args(packages: &[String]) -> (a: Vec<&str>)
    ensures
        str_views(a@) == seq!["install"@, "-y"@, "--no-install-recommends"@] + string_views(packages@),
{
    let fixed = vec!["install", "-y", "--no-install-recommends"];
    assert(str_views(fixed@) =~= seq!["install"@, "-y"@, "--no-install-recommends"@]);
    args_then_packages(fixed, packages)
}

/// `apt-get remove -y PKG…`.
pub fn apt_remove_args(packages: &[String]) -> (a: Vec<&str>)
    ensures
        str_views(a@) == seq!["remove"@, "-y"@] + string_views(packages@),
{
    let fixed = vec!["remove", "-y"];
    assert(str_views(fixed@) =~= seq!["remove"@, "-y"@]);
    args_then_packages(fixed, packages)
}

pub proof fn lemma_pieces_nonempty(s: Seq<char>, c: char, cur: Seq<char>)
    ensures
        pieces_acc(s, c, cur).len() >= 1,
    decreases s.len(),
{
    if s.len() > 0 {
        if s[0] == c {
            lemma_pieces_nonempty(s.drop_first(), c, seq![]);
        } else {
            lemma_pieces_nonempty(s.drop_first(), c, cur.push(s[0]));
        }
    }
}

/// The package a `dpkg-query` row reports as installed: the first
/// tab-separated field, where the second (trimmed) reads `installed` and
/// the first is not empty.
pub open spec fn dpkg_row(line: Seq<char>) -> Option<Seq<char>> {
    let parts = split_char(line, '\t');
    let name = parts[0];
    let status = if parts.len() > 1 { trim(parts[1]) } else { Seq::<char>::empty() };
    if status == "installed"@ && name.len() > 0 {
        Some(name)
    } else {
        None
    }
}

pub open spec fn dpkg_installed(ls: Seq<Seq<char>>) -> Seq<Seq<char>>
    decreases ls.len(),
{
    if ls.len() == 0 {
        seq![]
    } else {
        let rest = dpkg_installed(ls.drop_last());
        match dpkg_row(ls.last()) {
            Some(n) => rest.push(n),
            None => rest,
        }
    }
}

/// The installed packages named in `dpkg-query` output, in order; rows
/// in any other state and lines that are no row are skipped.
pub fn parse_dpkg_query_output(stdout: &str) -> (out: Vec<String>)
    ensures
        string_views(out@) == dpkg_installed(lines(stdout@)),
{
    let chars = chars_of(stdout);
    let ls = split_lines(&chars);
    let ghost all = views(ls@);
    let mut installed: Vec<String> = Vec::new();
    let mut i: usize = 0;
    assert(all.take(0) =~= Seq::<Seq<char>>::empty());
    while i < ls.len()
        invariant
            i <= ls.len(),
            all == views(ls@),
            all == lines(stdout@),
            string_views(installed@) == dpkg_installed(all.take(i as int)),
        decreases ls.len() - i,
    {
        assert(all.take(i + 1).drop_last() =~= all.take(i as int));
        assert(all.take(i + 1).last() == ls@[i as int]@);
        let parts = split_char_exec(&ls[i], '\t');
        proof {
            lemma_pieces_nonempty(ls@[i as int]@, '\t', seq![]);
        }
        let name = &parts[0];
        let status = if parts.len() > 1 { trim_vec(&parts[1]) } else { Vec::new() };
        if crate::text::eq_str(&status, "installed") && name.len() > 0 {
            let ghost before = string_views(installed@);
            let n = string_of(name);
            installed.push(n);
            assert(string_views(installed@) =~= before.push(name@));
        }
        i += 1;
    }
    assert(all.take(ls.len() as int) =~= all);
    installed
}

} // verus!
