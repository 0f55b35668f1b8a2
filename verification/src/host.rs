//! What the installer reads of the host by itself: the distribution from
//! `os-release` text and the session type from `XDG_SESSION_TYPE`.
use crate::model::{ActiveFramework, Distro, DistroFamily, PreState, SessionType};
use crate::text::{chars_of, lines, slice_of, split_lines, split_whitespace, starts_with, string_of, string_views, tokens, views};
use crate::envfile::trim_matches;
use vstd::prelude::*;

verus! {

/// The value of the first `KEY=value` line for `key`, surrounding double
/// quotes removed.
pub open spec fn os_release_value_from(ls: Seq<Seq<char>>, key: Seq<char>) -> Option<Seq<char>>
    decreases ls.len(),
{
    if ls.len() == 0 {
        None
    } else if starts_with(ls[0], key + seq!['=']) {
        Some(trim_matches(ls[0].skip(key.len() + 1int), '"'))
    } else {
        os_release_value_from(ls.drop_first(), key)
    }
}

fn trim_quotes(v: &Vec<char>) -> (r: Vec<char>)
    ensures
        r@ == trim_matches(v@, '"'),
{
    let mut a: usize = 0;
    assert(v@.skip(0) =~= v@);
    while a < v.len() && v[a] == '"'
        invariant
            a <= v.len(),
            crate::envfile::strip_lead(v@, '"') == crate::envfile::strip_lead(v@.skip(a as int), '"'),
        decreases v.len() - a,
    {
        assert(v@.skip(a as int).drop_first() =~= v@.skip(a + 1));
        a += 1;
    }
    let s = slice_of(v, a, v.len());
    assert(s@ =~= v@.skip(a as int));
    assert(crate::envfile::strip_lead(s@, '"') == s@);
    let mut b: usize = s.len();
    assert(s@.take(b as int) =~= s@);
    while b > 0 && s[b - 1] == '"'
        invariant
            b <= s.len(),
            crate::envfile::strip_trail(s@, '"') == crate::envfile::strip_trail(s@.take(b as int), '"'),
        decreases b,
    {
        assert(s@.take(b as int).drop_last() =~= s@.take(b - 1));
        b -= 1;
    }
    let r = slice_of(&s, 0, b);
    assert(r@ =~= s@.take(b as int));
    r
}

/// Looks `key` up in `os-release` text.
pub fn os_release_value(text: &str, key: &str) -> (r: Option<String>)
    ensures
        match r {
            Some(v) => os_release_value_from(lines(text@), key@) == Some(v@),
            None => os_release_value_from(lines(text@), key@) is None,
        },
{
    let chars = chars_of(text);
    let ls = split_lines(&chars);
    let ghost all = views(ls@);
    let mut prefix = chars_of(key);
    prefix.push('=');
    let mut i: usize = 0;
    assert(all.skip(0) =~= all);
    while i < ls.len()
        invariant
            i <= ls.len(),
            all == views(ls@),
            all == lines(text@),
            prefix@ == key@ + seq!['='],
            os_release_value_from(all, key@) == os_release_value_from(all.skip(i as int), key@),
        decreases ls.len() - i,
    {
        assert(all.skip(i as int)[0] == ls@[i as int]@);
        assert(all.skip(i as int).drop_first() =~= all.skip(i + 1));
        if crate::text::has_prefix(&ls[i], &prefix) {
            let rest = slice_of(&ls[i], prefix.len(), ls[i].len());
            assert(rest@ =~= ls@[i as int]@.skip(key@.len() + 1int));
            return Some(string_of(&trim_quotes(&rest)));
        }
        i += 1;
    }
    assert(all.skip(ls.len() as int) =~= Seq::<Seq<char>>::empty());
    None
}

/// The family a distribution belongs to, by its `ID` or one of its
/// `ID_LIKE` entries.
pub open spec fn family_of(id: Seq<char>, like: Seq<Seq<char>>) -> DistroFamily {
    let is = |n: Seq<char>| id == n || like.contains(n);
    if is("debian"@) || is("ubuntu"@) {
        DistroFamily::Debian
    } else if is("fedora"@) || is("rhel"@) {
        DistroFamily::Redhat
    } else if is("arch"@) {
        DistroFamily::Arch
    } else if is("suse"@) || is("opensuse"@) {
        DistroFamily::Suse
    } else if is("alpine"@) {
        DistroFamily::Alpine
    } else if is("nixos"@) {
        DistroFamily::Nix
    } else {
        DistroFamily::Unknown
    }
}

fn names(id: &Vec<char>, like: &Vec<Vec<char>>, n: &str) -> (b: bool)
    ensures
        b == (id@ == n@ || views(like@).contains(n@)),
{
    let v = chars_of(n);
    crate::text::seq_eq(id, &v) || crate::text::contains_vec(like, &v)
}

/// The family of a distribution.
pub fn distro_family(id: &str, id_like: &Vec<String>) -> (f: DistroFamily)
    ensures
        f == family_of(id@, string_views(id_like@)),
{
    let i = chars_of(id);
    let mut like: Vec<Vec<char>> = Vec::new();
    let mut k: usize = 0;
    while k < id_like.len()
        invariant
            k <= id_like.len(),
            views(like@) == string_views(id_like@).take(k as int),
        decreases id_like.len() - k,
    {
        let ghost before = views(like@);
        like.push(chars_of(id_like[k].as_str()));
        assert(views(like@) =~= before.push(id_like@[k as int]@));
        assert(string_views(id_like@).take(k + 1) =~= string_views(id_like@).take(k as int).push(id_like@[k as int]@));
        k += 1;
    }
    assert(string_views(id_like@).take(id_like.len() as int) =~= string_views(id_like@));
    if names(&i, &like, "debian") || names(&i, &like, "ubuntu") {
        DistroFamily::Debian
    } else if names(&i, &like, "fedora") || names(&i, &like, "rhel") {
        DistroFamily::Redhat
    } else if names(&i, &like, "arch") {
        DistroFamily::Arch
    } else if names(&i, &like, "suse") || names(&i, &like, "opensuse") {
        DistroFamily::Suse
    } else if names(&i, &like, "alpine") {
        DistroFamily::Alpine
    } else if names(&i, &like, "nixos") {
        DistroFamily::Nix
    } else {
        DistroFamily::Unknown
    }
}

/// The session type `XDG_SESSION_TYPE` names.
pub fn session_of(xdg_session_type: Option<&str>) -> (s: SessionType)
    ensures
        s == match xdg_session_type {
            Some(v) => if v@ == "wayland"@ {
                SessionType::Wayland
            } else if v@ == "x11"@ {
                SessionType::X11
            } else if v@ == "tty"@ {
                SessionType::Tty
            } else {
                SessionType::Unknown
            },
            None => SessionType::Unknown,
        },
{
    match xdg_session_type {
        None => SessionType::Unknown,
        Some(v) => {
            let c = chars_of(v);
            if crate::text::eq_str(&c, "wayland") {
                SessionType::Wayland
            } else if crate::text::eq_str(&c, "x11") {
                SessionType::X11
            } else if crate::text::eq_str(&c, "tty") {
                SessionType::Tty
            } else {
                SessionType::Unknown
            }
        },
    }
}

/// The pre-state the installer can build without the doctor: the
/// distribution from `os-release` (`ID` defaulting to `unknown`, `ID_LIKE`
/// split on white space), the session type, no active framework known.
pub fn pre_state_from(os_release: &str, xdg_session_type: Option<&str>) -> (p: PreState)
    ensures
        p.distro.id@ == match os_release_value_from(lines(os_release@), "ID"@) {
            Some(v) => v,
            None => "unknown"@,
        },
        string_views(p.distro.id_like@) == match os_release_value_from(lines(os_release@), "ID_LIKE"@) {
            Some(v) => tokens(v),
            None => Seq::<Seq<char>>::empty(),
        },
        p.distro.family == family_of(p.distro.id@, string_views(p.distro.id_like@)),
        p.active_framework == ActiveFramework::NoFramework,
        p.installed_packages@.len() == 0,
{
    let id = match os_release_value(os_release, "ID") {
        Some(v) => v,
        None => "unknown".to_owned(),
    };
    let id_like: Vec<String> = match os_release_value(os_release, "ID_LIKE") {
        Some(v) => {
            let c = chars_of(v.as_str());
            let parts = split_whitespace(&c);
            crate::text::strings_of(&parts)
        },
        None => {
            let e: Vec<String> = Vec::new();
            assert(string_views(e@) =~= Seq::<Seq<char>>::empty());
            e
        },
    };
    let family = distro_family(id.as_str(), &id_like);
    PreState {
        distro: Distro {
            id,
            version_id: os_release_value(os_release, "VERSION_ID"),
            pretty: os_release_value(os_release, "PRETTY_NAME"),
            family,
            id_like,
        },
        session: session_of(xdg_session_type),
        active_framework: ActiveFramework::NoFramework,
        installed_packages: Vec::new(),
    }
}

} // verus!
