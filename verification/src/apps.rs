//! The applications the doctor can diagnose with `--app`, how a user's
//! name for one is resolved to its profile, and what the app detectors
//! conclude from their probes.
use crate::checkers::{AppFacts, AppKind};
use crate::recommendations::strs_view;
use crate::text::{
    append_str, chars_of, lower, lower_seq, seq_eq, split_char, split_char_exec, string_of,
    string_views, to_lower, trim, trim_vec, views,
};
use vstd::prelude::*;

verus! {

/// A recognised application: its canonical id, the other names users
/// type for it, how it is packaged before any probe says otherwise,
/// where its binary usually lives, and which extra detectors it needs.
#[derive(Debug, Clone)]
pub struct AppProfile {
    pub id: &'static str,
    pub aliases: Vec<&'static str>,
    pub display_name: &'static str,
    pub kind_hint: AppKind,
    pub binary_hints: Vec<&'static str>,
    pub extra_detectors: Vec<&'static str>,
}

/// A profile as a mathematical value.
#[verifier::ext_equal]
pub struct AppProfileView {
    pub id: Seq<char>,
    pub aliases: Seq<Seq<char>>,
    pub display_name: Seq<char>,
    pub kind_hint: AppKind,
    pub binary_hints: Seq<Seq<char>>,
    pub extra_detectors: Seq<Seq<char>>,
}

impl View for AppProfile {
    type V = AppProfileView;

    open spec fn view(&self) -> AppProfileView {
        AppProfileView {
            id: self.id@,
            aliases: strs_view(self.aliases@),
            display_name: self.display_name@,
            kind_hint: self.kind_hint,
            binary_hints: strs_view(self.binary_hints@),
            extra_detectors: strs_view(self.extra_detectors@),
        }
    }
}

pub open spec fn profile_views(v: Seq<AppProfile>) -> Seq<AppProfileView> {
    Seq::new(v.len(), |i: int| v[i]@)
}

pub open spec fn app_electron() -> Seq<Seq<char>> {
    seq!["app.electron"@]
}

/// The ten profiles, in the order the `list` command shows them.
#[verifier::opaque]
pub open spec fn profiles_spec() -> Seq<AppProfileView> {
    seq![
        AppProfileView {
            id: "vscode"@,
            aliases: seq!["code"@, "code-oss"@, "vscodium"@, "visual studio code"@],
            display_name: "Visual Studio Code"@,
            kind_hint: AppKind::Electron,
            binary_hints: seq![
                "/usr/bin/code"@,
                "/usr/share/code/code"@,
                "/snap/bin/code"@,
                "/var/lib/flatpak/exports/bin/com.visualstudio.code"@,
            ],
            extra_detectors: app_electron(),
        },
        AppProfileView {
            id: "chrome"@,
            aliases: seq!["google-chrome"@, "google-chrome-stable"@, "chromium"@, "chromium-browser"@],
            display_name: "Google Chrome / Chromium"@,
            kind_hint: AppKind::Chromium,
            binary_hints: seq![
                "/usr/bin/google-chrome"@,
                "/usr/bin/google-chrome-stable"@,
                "/usr/bin/chromium"@,
                "/usr/bin/chromium-browser"@,
            ],
            extra_detectors: app_electron(),
        },
        AppProfileView {
            id: "firefox"@,
            aliases: seq!["firefox-esr"@, "firefox-developer-edition"@],
            display_name: "Mozilla Firefox"@,
            kind_hint: AppKind::Native,
            binary_hints: seq!["/usr/bin/firefox"@, "/usr/lib/firefox/firefox"@, "/snap/bin/firefox"@],
            extra_detectors: seq![],
        },
        AppProfileView {
            id: "slack"@,
            aliases: seq![],
            display_name: "Slack"@,
            kind_hint: AppKind::Electron,
            binary_hints: seq!["/usr/bin/slack"@, "/snap/bin/slack"@, "/var/lib/flatpak/exports/bin/com.slack.Slack"@],
            extra_detectors: app_electron(),
        },
        AppProfileView {
            id: "discord"@,
            aliases: seq![],
            display_name: "Discord"@,
            kind_hint: AppKind::Electron,
            binary_hints: seq!["/usr/bin/discord"@, "/opt/discord/Discord"@, "/snap/bin/discord"@],
            extra_detectors: app_electron(),
        },
        AppProfileView {
            id: "obsidian"@,
            aliases: seq![],
            display_name: "Obsidian"@,
            kind_hint: AppKind::Electron,
            binary_hints: seq![
                "/usr/bin/obsidian"@,
                "/opt/Obsidian/obsidian"@,
                "/var/lib/flatpak/exports/bin/md.obsidian.Obsidian"@,
            ],
            extra_detectors: app_electron(),
        },
        AppProfileView {
            id: "telegram"@,
            aliases: seq!["telegram-desktop"@],
            display_name: "Telegram Desktop"@,
            kind_hint: AppKind::Native,
            binary_hints: seq!["/usr/bin/telegram-desktop"@, "/var/lib/flatpak/exports/bin/org.telegram.desktop"@],
            extra_detectors: seq![],
        },
        AppProfileView {
            id: "libreoffice"@,
            aliases: seq!["soffice"@, "lowriter"@, "localc"@],
            display_name: "LibreOffice"@,
            kind_hint: AppKind::Native,
            binary_hints: seq!["/usr/bin/libreoffice"@, "/usr/bin/soffice"@],
            extra_detectors: seq![],
        },
        AppProfileView {
            id: "intellij"@,
            aliases: seq!["idea"@, "intellijidea"@, "idea-community"@],
            display_name: "IntelliJ IDEA"@,
            kind_hint: AppKind::Jvm,
            binary_hints: seq!["/usr/bin/idea"@, "/usr/local/bin/idea"@, "/opt/idea/bin/idea.sh"@],
            extra_detectors: seq![],
        },
        AppProfileView {
            id: "neovide"@,
            aliases: seq![],
            display_name: "Neovide"@,
            kind_hint: AppKind::Native,
            binary_hints: seq!["/usr/bin/neovide"@, "/usr/local/bin/neovide"@],
            extra_detectors: seq![],
        },
    ]
}

fn make_profile(
    id: &'static str,
    aliases: Vec<&'static str>,
    display_name: &'static str,
    kind_hint: AppKind,
    binary_hints: Vec<&'static str>,
    extra_detectors: Vec<&'static str>,
) -> (p: AppProfile)
    ensures
        p@ == (AppProfileView {
            id: id@,
            aliases: strs_view(aliases@),
            display_name: display_name@,
            kind_hint,
            binary_hints: strs_view(binary_hints@),
            extra_detectors: strs_view(extra_detectors@),
        }),
{
    AppProfile { id, aliases, display_name, kind_hint, binary_hints, extra_detectors }
}

/// Builds the registry.
#[verifier::rlimit(60)]
pub fn profiles() -> (ps: Vec<AppProfile>)
    ensures
        profile_views(ps@) == profiles_spec(),
{
    reveal(profiles_spec);
    let p0 = make_profile(
        "vscode",
        vec!["code", "code-oss", "vscodium", "visual studio code"],
        "Visual Studio Code",
        AppKind::Electron,
        vec![
            "/usr/bin/code",
            "/usr/share/code/code",
            "/snap/bin/code",
            "/var/lib/flatpak/exports/bin/com.visualstudio.code",
        ],
        vec!["app.electron"],
    );
    assert(p0@ =~~= profiles_spec()[0]);
    let p1 = make_profile(
        "chrome",
        vec!["google-chrome", "google-chrome-stable", "chromium", "chromium-browser"],
        "Google Chrome / Chromium",
        AppKind::Chromium,
        vec![
            "/usr/bin/google-chrome",
            "/usr/bin/google-chrome-stable",
            "/usr/bin/chromium",
            "/usr/bin/chromium-browser",
        ],
        vec!["app.electron"],
    );
    assert(p1@ =~~= profiles_spec()[1]);
    let p2 = make_profile(
        "firefox",
        vec!["firefox-esr", "firefox-developer-edition"],
        "Mozilla Firefox",
        AppKind::Native,
        vec!["/usr/bin/firefox", "/usr/lib/firefox/firefox", "/snap/bin/firefox"],
        vec![],
    );
    assert(p2@ =~~= profiles_spec()[2]);
    let p3 = make_profile(
        "slack",
        vec![],
        "Slack",
        AppKind::Electron,
        vec!["/usr/bin/slack", "/snap/bin/slack", "/var/lib/flatpak/exports/bin/com.slack.Slack"],
        vec!["app.electron"],
    );
    assert(p3@ =~~= profiles_spec()[3]);
    let p4 = make_profile(
        "discord",
        vec![],
        "Discord",
        AppKind::Electron,
        vec!["/usr/bin/discord", "/opt/discord/Discord", "/snap/bin/discord"],
        vec!["app.electron"],
    );
    assert(p4@ =~~= profiles_spec()[4]);
    let p5 = make_profile(
        "obsidian",
        vec![],
        "Obsidian",
        AppKind::Electron,
        vec!["/usr/bin/obsidian", "/opt/Obsidian/obsidian", "/var/lib/flatpak/exports/bin/md.obsidian.Obsidian"],
        vec!["app.electron"],
    );
    assert(p5@ =~~= profiles_spec()[5]);
    let p6 = make_profile(
        "telegram",
        vec!["telegram-desktop"],
        "Telegram Desktop",
        AppKind::Native,
        vec!["/usr/bin/telegram-desktop", "/var/lib/flatpak/exports/bin/org.telegram.desktop"],
        vec![],
    );
    assert(p6@ =~~= profiles_spec()[6]);
    let p7 = make_profile(
        "libreoffice",
        vec!["soffice", "lowriter", "localc"],
        "LibreOffice",
        AppKind::Native,
        vec!["/usr/bin/libreoffice", "/usr/bin/soffice"],
        vec![],
    );
    assert(p7@ =~~= profiles_spec()[7]);
    let p8 = make_profile(
        "intellij",
        vec!["idea", "intellijidea", "idea-community"],
        "IntelliJ IDEA",
        AppKind::Jvm,
        vec!["/usr/bin/idea", "/usr/local/bin/idea", "/opt/idea/bin/idea.sh"],
        vec![],
    );
    assert(p8@ =~~= profiles_spec()[8]);
    let p9 = make_profile(
        "neovide",
        vec![],
        "Neovide",
        AppKind::Native,
        vec!["/usr/bin/neovide", "/usr/local/bin/neovide"],
        vec![],
    );
    assert(p9@ =~~= profiles_spec()[9]);
    let ps = vec![p0, p1, p2, p3, p4, p5, p6, p7, p8, p9];
    assert(profile_views(ps@) =~~= profiles_spec());
    ps
}

// ------------------------------------------------------------ resolving a name

/// ASCII-case-insensitive equality, as `str::eq_ignore_ascii_case`.
pub open spec fn eq_ignore_case(a: Seq<char>, b: Seq<char>) -> bool {
    lower_seq(a) == lower_seq(b)
}

/// A profile answers to an already lower-cased name through its id or
/// one of its aliases, case aside.
pub open spec fn answers_lowered(p: AppProfileView, lowered: Seq<char>) -> bool {
    ||| lower_seq(p.id) == lowered
    ||| exists|j: int| 0 <= j < p.aliases.len() && lower_seq(#[trigger] p.aliases[j]) == lowered
}

/// A profile answers to a name through its id or one of its aliases.
pub open spec fn answers_to(p: AppProfileView, name: Seq<char>) -> bool {
    answers_lowered(p, lower_seq(name))
}

/// The first profile that answers to an already lower-cased name.
pub open spec fn lookup_lowered(lowered: Seq<char>) -> Option<int> {
    let ps = profiles_spec();
    if exists|k: int| 0 <= k < ps.len() && answers_lowered(#[trigger] ps[k], lowered) {
        Some(choose|k: int| 0 <= k < ps.len() && answers_lowered(#[trigger] ps[k], lowered)
            && forall|j: int| 0 <= j < k ==> !answers_lowered(#[trigger] ps[j], lowered))
    } else {
        None
    }
}

/// The first profile that answers to the name.
pub open spec fn lookup_spec(name: Seq<char>) -> Option<int> {
    lookup_lowered(lower_seq(name))
}

/// The last part of a path that names something, as the components of
/// `Path` see it: empty parts and `.` are skipped.
pub open spec fn last_named_part(parts: Seq<Seq<char>>) -> Option<Seq<char>>
    decreases parts.len(),
{
    if parts.len() == 0 {
        None
    } else if parts.last().len() > 0 && parts.last() != "."@ {
        Some(parts.last())
    } else {
        last_named_part(parts.drop_last())
    }
}

/// `Path::file_name`: the last component where it is a name (not `..`).
pub open spec fn file_name_spec(path: Seq<char>) -> Option<Seq<char>> {
    match last_named_part(split_char(path, '/')) {
        Some(c) => if c == ".."@ {
            None
        } else {
            Some(c)
        },
        None => None,
    }
}

/// The profile a user's name for an app resolves to: the trimmed name,
/// case aside, matched against ids and aliases; failing that, where the
/// name is a path, its file name matched the same way. A blank name
/// resolves to nothing.
pub open spec fn resolve_spec(input: Seq<char>) -> Option<int> {
    let t = trim(input);
    if t.len() == 0 {
        None
    } else {
        match lookup_spec(lower_seq(t)) {
            Some(k) => Some(k),
            None => if t.contains('/') {
                match file_name_spec(t) {
                    Some(b) => lookup_spec(lower_seq(b)),
                    None => None,
                }
            } else {
                None
            },
        }
    }
}

fn eq_ignore_case_exec(a: &Vec<char>, lowered: &Vec<char>) -> (r: bool)
    requires
        lowered@ == lower_seq(lowered@),
    ensures
        r == eq_ignore_case(a@, lowered@),
{
    let la = to_lower(a);
    seq_eq(&la, lowered)
}

proof fn lemma_lower_idempotent(s: Seq<char>)
    ensures
        lower_seq(lower_seq(s)) == lower_seq(s),
{
    assert(lower_seq(lower_seq(s)) =~= lower_seq(s));
}

/// The index of the first profile answering to `name`.
fn lookup_exact(ps: &Vec<AppProfile>, name: &Vec<char>) -> (r: Option<usize>)
    requires
        profile_views(ps@) == profiles_spec(),
    ensures
        match r {
            Some(k) => k < ps@.len() && lookup_spec(name@) == Some(k as int),
            None => lookup_spec(name@) is None,
        },
{
    let ghost spec_ps = profiles_spec();
    let lowered = to_lower(name);
    proof {
        lemma_lower_idempotent(name@);
    }
    let mut k: usize = 0;
    while k < ps.len()
        invariant
            k <= ps.len(),
            profile_views(ps@) == spec_ps,
            spec_ps == profiles_spec(),
            lowered@ == lower_seq(name@),
            lowered@ == lower_seq(lowered@),
            forall|j: int| 0 <= j < k ==> !answers_to(#[trigger] spec_ps[j], name@),
        decreases ps.len() - k,
    {
        let p = &ps[k];
        assert(spec_ps[k as int] == p@);
        let id = chars_of(p.id);
        let mut hit = eq_ignore_case_exec(&id, &lowered);
        let mut a: usize = 0;
        while a < p.aliases.len() && !hit
            invariant
                a <= p.aliases.len(),
                k < spec_ps.len(),
                spec_ps[k as int] == p@,
                lowered@ == lower_seq(name@),
                lowered@ == lower_seq(lowered@),
                hit ==> answers_to(p@, name@),
                !hit ==> !eq_ignore_case(p.id@, name@),
                !hit ==> forall|j: int| 0 <= j < a ==> !eq_ignore_case(#[trigger] strs_view(p.aliases@)[j], name@),
            decreases p.aliases.len() - a,
        {
            let al = chars_of(p.aliases[a]);
            if eq_ignore_case_exec(&al, &lowered) {
                proof {
                    assert(eq_ignore_case(strs_view(p.aliases@)[a as int], name@));
                    assert(spec_ps[k as int].aliases[a as int] == strs_view(p.aliases@)[a as int]);
                    assert(0 <= a < spec_ps[k as int].aliases.len());
                    assert(answers_to(spec_ps[k as int], name@));
                }
                hit = true;
            }
            a += 1;
        }
        if hit {
            proof {
                assert(answers_to(spec_ps[k as int], name@));
                let w = k as int;
                assert(0 <= w < spec_ps.len() && answers_to(spec_ps[w], name@)
                    && forall|j: int| 0 <= j < w ==> !answers_to(#[trigger] spec_ps[j], name@));
            }
            return Some(k);
        }
        assert(!answers_to(spec_ps[k as int], name@));
        k += 1;
    }
    None
}



/// `Path::file_name` of a path given as characters.
pub(crate) fn file_name(path: &Vec<char>) -> (r: Option<Vec<char>>)
    ensures
        match (r, file_name_spec(path@)) {
            (Some(a), Some(b)) => a@ == b,
            (None, None) => true,
            _ => false,
        },
{
    let parts = split_char_exec(path, '/');
    let ghost ps = views(parts@);
    let mut last: Option<usize> = None;
    let mut i: usize = 0;
    assert(ps.take(0) =~= Seq::<Seq<char>>::empty());
    while i < parts.len()
        invariant
            i <= parts.len(),
            ps == views(parts@),
            ps.len() == parts@.len(),
            match last {
                Some(j) => j < i && last_named_part(ps.take(i as int)) == Some(ps[j as int]),
                None => last_named_part(ps.take(i as int)) is None,
            },
        decreases parts.len() - i,
    {
        assert(ps.take(i + 1).drop_last() =~= ps.take(i as int));
        assert(ps.take(i + 1).last() == ps[i as int]);
        assert(ps[i as int] == parts@[i as int]@);
        if parts[i].len() > 0 && !crate::text::eq_str(&parts[i], ".") {
            last = Some(i);
        }
        i += 1;
    }
    assert(ps.take(parts.len() as int) =~= ps);
    match last {
        Some(j) => {
            if crate::text::eq_str(&parts[j], "..") {
                None
            } else {
                let out = crate::text::slice_of(&parts[j], 0, parts[j].len());
                assert(out@ =~= ps[j as int]);
                Some(out)
            }
        },
        None => None,
    }
}

/// Resolves a user's name for an app (an id, an alias or a path to the
/// binary, in any case) to its profile.
pub fn resolve_app(input: &str) -> (r: Option<AppProfile>)
    ensures
        match resolve_spec(input@) {
            Some(k) => (r matches Some(p) && p@ == profiles_spec()[k]) && 0 <= k < profiles_spec().len(),
            None => r is None,
        },
{
    let raw = chars_of(input);
    let t = trim_vec(&raw);
    if t.len() == 0 {
        return None;
    }
    let lowered = to_lower(&t);
    let mut ps = profiles();
    match lookup_exact(&ps, &lowered) {
        Some(k) => {
            let ghost before = ps@;
            let p = ps.remove(k);
            assert(p@ == profile_views(before)[k as int]);
            return Some(p);
        },
        None => {},
    }
    if crate::text::contains_char(&t, '/') {
        match file_name(&t) {
            Some(b) => {
                let bl = to_lower(&b);
                match lookup_exact(&ps, &bl) {
                    Some(k) => {
                        let ghost before = ps@;
                        let p = ps.remove(k);
                        assert(p@ == profile_views(before)[k as int]);
                        return Some(p);
                    },
                    None => {},
                }
            },
            None => {},
        }
    }
    None
}


// ------------------------------------------------------------ laws of the registry

/// The registry holds exactly ten profiles, and no two share an id.
pub proof fn law_profile_ids_unique()
    ensures
        profiles_spec().len() == 10,
        forall|i: int, j: int| 0 <= i < j < profiles_spec().len() ==> (#[trigger] profiles_spec()[i]).id != (#[trigger] profiles_spec()[j]).id,
{
    reveal(profiles_spec);
    reveal_strlit("vscode");
    reveal_strlit("chrome");
    reveal_strlit("firefox");
    reveal_strlit("slack");
    reveal_strlit("discord");
    reveal_strlit("obsidian");
    reveal_strlit("telegram");
    reveal_strlit("libreoffice");
    reveal_strlit("intellij");
    reveal_strlit("neovide");
    let ps = profiles_spec();
    assert forall|i: int, j: int| 0 <= i < j < ps.len() implies (#[trigger] ps[i]).id != (#[trigger] ps[j]).id by {
        assert(ps[i].id[0] != ps[j].id[0] || ps[i].id.len() != ps[j].id.len() || ps[i].id[1] != ps[j].id[1]);
    }
}

/// Every Electron or Chromium profile asks for the Electron detector.
pub proof fn law_electron_profiles_run_electron_detector()
    ensures
        forall|i: int| 0 <= i < profiles_spec().len() && (#[trigger] profiles_spec()[i]).kind_hint is Electron
            || 0 <= i < profiles_spec().len() && profiles_spec()[i].kind_hint is Chromium
            ==> profiles_spec()[i].extra_detectors.contains("app.electron"@),
{
    reveal(profiles_spec);
    let ps = profiles_spec();
    assert forall|i: int| 0 <= i < ps.len() && ((#[trigger] ps[i]).kind_hint is Electron || ps[i].kind_hint is Chromium)
        implies ps[i].extra_detectors.contains("app.electron"@) by {
        assert(ps[i].extra_detectors == app_electron());
        assert(app_electron()[0] == "app.electron"@);
    }
}

/// Looking a name up ignores its case.
pub proof fn law_lookup_ignores_case(name: Seq<char>)
    ensures
        lookup_spec(name) == lookup_spec(lower_seq(name)),
{
    lemma_lower_idempotent(name);
}


// ------------------------------------------------------------ probing an app

/// The same kind, as a fresh value.
pub fn copy_kind(k: &AppKind) -> (r: AppKind)
    ensures
        r == *k,
{
    match k {
        AppKind::Native => AppKind::Native,
        AppKind::Electron => AppKind::Electron,
        AppKind::Chromium => AppKind::Chromium,
        AppKind::AppImage => AppKind::AppImage,
        AppKind::Jvm => AppKind::Jvm,
        AppKind::Snap { name } => AppKind::Snap { name: name.clone() },
        AppKind::Flatpak { sandbox_id } => AppKind::Flatpak { sandbox_id: sandbox_id.clone() },
    }
}

/// Where a binary hint points, under the test root where there is one.
pub open spec fn hint_path(hint: Seq<char>, sysroot: Option<Seq<char>>) -> Seq<char> {
    match sysroot {
        Some(root) => crate::model::path_join(
            root,
            if hint.len() > 0 && hint[0] == '/' { hint.drop_first() } else { hint },
        ),
        None => hint,
    }
}

/// The paths to probe first for an app's binary, in the profile's order.
pub fn binary_candidates(profile: &AppProfile, sysroot: Option<&str>) -> (r: Vec<String>)
    ensures
        string_views(r@) == Seq::new(
            profile.binary_hints@.len(),
            |i: int| hint_path(profile.binary_hints@[i]@, match sysroot {
                Some(x) => Some(x@),
                None => None,
            }),
        ),
{
    let ghost root = match sysroot {
        Some(x) => Some(x@),
        None => None,
    };
    let mut out: Vec<String> = Vec::new();
    let mut i: usize = 0;
    while i < profile.binary_hints.len()
        invariant
            i <= profile.binary_hints@.len(),
            root == match sysroot {
                Some(x) => Some(x@),
                None => None,
            },
            string_views(out@) == Seq::new(i as nat, |k: int| hint_path(profile.binary_hints@[k]@, root)),
        decreases profile.binary_hints@.len() - i,
    {
        let hint = profile.binary_hints[i];
        let path = match sysroot {
            Some(r) => {
                let h = chars_of(hint);
                let stripped = if h.len() > 0 && h[0] == '/' {
                    crate::text::slice_of(&h, 1, h.len())
                } else {
                    h
                };
                assert(stripped@ == (if hint@.len() > 0 && hint@[0] == '/' { hint@.drop_first() } else { hint@ }));
                let s = string_of(&stripped);
                crate::model::join_path(r, s.as_str())
            },
            None => hint.to_owned(),
        };
        assert(hint == profile.binary_hints@[i as int]);
        assert(path@ == hint_path(profile.binary_hints@[i as int]@, root));
        let ghost before = string_views(out@);
        let ghost pv = path@;
        out.push(path);
        assert(string_views(out@) =~= before.push(pv));
        assert(string_views(out@) =~= Seq::new((i + 1) as nat, |k: int| hint_path(profile.binary_hints@[k]@, root)));
        i += 1;
    }
    out
}

/// What `which` printed, as a path: its first line, trimmed, unless that
/// is blank.
pub open spec fn which_path_spec(stdout: Seq<char>) -> Option<Seq<char>> {
    let first = if crate::text::lines(stdout).len() > 0 { trim(crate::text::lines(stdout)[0]) } else { seq![] };
    if first.len() == 0 {
        None
    } else {
        Some(first)
    }
}

/// The path `which` found, from its output.
pub fn which_path(stdout: &str) -> (r: Option<String>)
    ensures
        match (r, which_path_spec(stdout@)) {
            (Some(a), Some(b)) => a@ == b,
            (None, None) => true,
            _ => false,
        },
{
    let c = chars_of(stdout);
    let ls = crate::text::split_lines(&c);
    let first = if ls.len() > 0 {
        trim_vec(&ls[0])
    } else {
        Vec::new()
    };
    if first.len() == 0 {
        None
    } else {
        Some(string_of(&first))
    }
}

/// The kind an app is reported as, from its profile's hint and what
/// `file --brief` said of its binary (where that ran): an AppImage is an
/// AppImage, a Python or shell script launcher counts as native, and
/// anything else keeps the hint.
pub open spec fn refined_kind(hint: AppKind, file_out: Option<Seq<char>>) -> AppKind {
    match file_out {
        Some(out) => {
            let d = lower_seq(out);
            if crate::text::contains_seq(d, "appimage"@) {
                AppKind::AppImage
            } else if crate::text::contains_seq(d, "python script"@) || crate::text::contains_seq(d, "shell script"@) {
                AppKind::Native
            } else {
                hint
            }
        },
        None => hint,
    }
}

/// Refines a profile's kind hint by what `file(1)` said of the binary.
pub fn refine_kind(hint: &AppKind, file_out: Option<&str>) -> (k: AppKind)
    ensures
        k == refined_kind(*hint, match file_out {
            Some(o) => Some(o@),
            None => None,
        }),
{
    match file_out {
        Some(out) => {
            let c = chars_of(out);
            let d = to_lower(&c);
            if crate::text::contains_str(&d, "appimage") {
                AppKind::AppImage
            } else if crate::text::contains_str(&d, "python script") || crate::text::contains_str(&d, "shell script") {
                AppKind::Native
            } else {
                copy_kind(hint)
            }
        },
        None => copy_kind(hint),
    }
}

pub open spec fn opt_str(o: Option<String>) -> Option<Seq<char>> {
    match o {
        Some(s) => Some(s@),
        None => None,
    }
}

/// The generic detector's notes: a binary it could not find, or a
/// version it could not read from one it found.
pub open spec fn generic_notes(id: Seq<char>, bin_found: bool, version_found: bool) -> Seq<Seq<char>> {
    (if !bin_found { seq![id + ": binary not found on PATH or binary_hints"@] } else { seq![] })
        + (if bin_found && !version_found { seq![id + ": --version produced no parseable token"@] } else { seq![] })
}

/// The row the generic detector writes for a recognised app: its id, the
/// binary found (empty where none was), the version read, the refined
/// kind and the notes; Electron facts are left to the Electron detector.
/// The notes are returned beside the row as well.
pub fn generic_app_facts(profile: &AppProfile, bin: Option<String>, version: Option<String>, kind: AppKind) -> (r: (AppFacts, Vec<String>))
    ensures
        r.0.app_id@ == profile.id@,
        r.0.binary_path@ == match bin {
            Some(b) => b@,
            None => seq![],
        },
        r.0.version == version,
        r.0.kind == kind,
        r.0.electron_version is None,
        r.0.uses_wayland is None,
        string_views(r.0.detector_notes@) == generic_notes(profile.id@, bin is Some, version is Some),
        string_views(r.1@) == generic_notes(profile.id@, bin is Some, version is Some),
{
    let mut notes: Vec<String> = Vec::new();
    let mut copy: Vec<String> = Vec::new();
    if bin.is_none() {
        let mut v = chars_of(profile.id);
        append_str(&mut v, ": binary not found on PATH or binary_hints");
        notes.push(string_of(&v));
        copy.push(string_of(&v));
    }
    if version.is_none() && bin.is_some() {
        let mut v = chars_of(profile.id);
        append_str(&mut v, ": --version produced no parseable token");
        notes.push(string_of(&v));
        copy.push(string_of(&v));
    }
    assert(string_views(notes@) =~= generic_notes(profile.id@, bin is Some, version is Some));
    assert(string_views(copy@) =~= generic_notes(profile.id@, bin is Some, version is Some));
    let bin_found = bin.is_some();
    let binary_path = match bin {
        Some(b) => b,
        None => String::new(),
    };
    let facts = AppFacts {
        app_id: profile.id.to_owned(),
        binary_path,
        version,
        kind,
        electron_version: None,
        uses_wayland: None,
        detector_notes: notes,
    };
    (facts, copy)
}

/// The note for an `--app` name that resolves to no profile.
pub fn unknown_app_note(raw: &str) -> (s: String)
    ensures
        s@ == "unknown app id: "@ + raw@,
{
    let mut v = chars_of("unknown app id: ");
    append_str(&mut v, raw);
    string_of(&v)
}

/// Only Electron and Chromium apps get the Electron detector's probes.
pub fn wants_electron_probe(profile: &AppProfile) -> (b: bool)
    ensures
        b == crate::checkers::is_electron_like(profile.kind_hint),
{
    match profile.kind_hint {
        AppKind::Electron => true,
        AppKind::Chromium => true,
        _ => false,
    }
}

/// The session is Wayland when `XDG_SESSION_TYPE` says so, case aside.
pub fn session_is_wayland(xdg_session_type: Option<&str>) -> (b: bool)
    ensures
        b == (xdg_session_type matches Some(v) && lower_seq(v@) == "wayland"@),
{
    match xdg_session_type {
        Some(v) => {
            let c = chars_of(v);
            let l = to_lower(&c);
            crate::text::eq_str(&l, "wayland")
        },
        None => false,
    }
}

/// The Electron detector's notes: the version the binary scan found, and
/// what the process scan says of the Ozone/Wayland backend.
pub open spec fn electron_notes(id: Seq<char>, electron_version: Option<Seq<char>>, uses_wayland: Option<bool>, running: bool) -> Seq<Seq<char>> {
    (match electron_version {
        Some(v) => seq![id + ": electron version "@ + v + " (binary scan)"@],
        None => seq![],
    }) + match uses_wayland {
        Some(true) => seq![id + ": running with Ozone/Wayland"@],
        Some(false) => if running {
            seq![id + ": running without --ozone-platform=wayland"@]
        } else {
            seq![id + ": not running; inferring no Ozone flag"@]
        },
        None => seq![],
    }
}

fn electron_note_list(id: &str, electron_version: &Option<String>, uses_wayland: Option<bool>, running: bool) -> (r: Vec<String>)
    ensures
        string_views(r@) == electron_notes(id@, opt_str(*electron_version), uses_wayland, running),
{
    let mut notes: Vec<String> = Vec::new();
    match electron_version {
        Some(v) => {
            let mut c = chars_of(id);
            append_str(&mut c, ": electron version ");
            append_str(&mut c, v.as_str());
            append_str(&mut c, " (binary scan)");
            notes.push(string_of(&c));
        },
        None => {},
    }
    match uses_wayland {
        Some(true) => {
            let mut c = chars_of(id);
            append_str(&mut c, ": running with Ozone/Wayland");
            notes.push(string_of(&c));
        },
        Some(false) => {
            let mut c = chars_of(id);
            if running {
                append_str(&mut c, ": running without --ozone-platform=wayland");
            } else {
                append_str(&mut c, ": not running; inferring no Ozone flag");
            }
            notes.push(string_of(&c));
        },
        None => {},
    }
    assert(string_views(notes@) =~= electron_notes(id@, opt_str(*electron_version), uses_wayland, running));
    notes
}

/// The row the Electron detector writes, where it learned anything: the
/// binary's Electron version and whether the app uses Ozone/Wayland
/// (`running` says whether any copy of it was running). Nothing where it
/// learned neither.
pub fn electron_app_facts(
    profile: &AppProfile,
    bin: String,
    electron_version: Option<String>,
    uses_wayland: Option<bool>,
    running: bool,
) -> (r: Option<(AppFacts, Vec<String>)>)
    ensures
        (electron_version is None && uses_wayland is None) <==> r is None,
        r matches Some((f, notes)) ==> {
            &&& f.app_id@ == profile.id@
            &&& f.binary_path == bin
            &&& f.version is None
            &&& f.kind == profile.kind_hint
            &&& f.electron_version == electron_version
            &&& f.uses_wayland == uses_wayland
            &&& string_views(f.detector_notes@) == electron_notes(profile.id@, opt_str(electron_version), uses_wayland, running)
            &&& string_views(notes@) == electron_notes(profile.id@, opt_str(electron_version), uses_wayland, running)
        },
{
    if electron_version.is_none() && uses_wayland.is_none() {
        return None;
    }
    let notes = electron_note_list(profile.id, &electron_version, uses_wayland, running);
    let copy = electron_note_list(profile.id, &electron_version, uses_wayland, running);
    let facts = AppFacts {
        app_id: profile.id.to_owned(),
        binary_path: bin,
        version: None,
        kind: copy_kind(&profile.kind_hint),
        electron_version,
        uses_wayland,
        detector_notes: notes,
    };
    Some((facts, copy))
}


/// The profile the Electron detector probes where `target_app` names one:
/// the app must resolve to a known profile of an Electron or Chromium app.
pub open spec fn electron_target_spec(target_app: Option<Seq<char>>) -> Option<AppProfileView> {
    match target_app {
        Some(t) => match resolve_spec(t) {
            Some(k) => if crate::checkers::is_electron_like(profiles_spec()[k].kind_hint) {
                Some(profiles_spec()[k])
            } else {
                None
            },
            None => None,
        },
        None => None,
    }
}

/// Which app, if any, the Electron detector probes.
pub fn electron_target(target_app: Option<&str>) -> (r: Option<AppProfile>)
    ensures
        match r {
            Some(p) => electron_target_spec(crate::daemons::opt_seq(target_app)) == Some(p@),
            None => electron_target_spec(crate::daemons::opt_seq(target_app)) is None,
        },
{
    let raw = match target_app {
        Some(t) => t,
        None => {
            return None;
        },
    };
    match resolve_app(raw) {
        Some(p) => {
            if wants_electron_probe(&p) {
                Some(p)
            } else {
                None
            }
        },
        None => None,
    }
}

/// The version text a binary scan finds.
pub open spec fn scanned_version(head: Seq<u8>) -> Option<Seq<char>> {
    if head.len() == 0 {
        None
    } else {
        match crate::electron::electron_version_spec(head) {
            Some(run) => Some(crate::electron::ascii_chars(run)),
            None => None,
        }
    }
}

/// Whether the app uses Ozone/Wayland, as the running copies' argv and
/// the session type tell.
pub open spec fn ozone_spec(running: Seq<Seq<Seq<char>>>, wayland: bool) -> Option<bool> {
    if crate::electron::any_ozone_flag(running) {
        Some(true)
    } else if running.len() > 0 {
        Some(false)
    } else if wayland {
        Some(false)
    } else {
        None
    }
}

/// The Electron detector's work on what was read for `profile`: `bin` is
/// its binary, `binary_head` the first bytes of that binary (empty where
/// it could not be read), `running` the argv of each running copy, and
/// `xdg_session_type` the session's type. The version comes from the
/// binary scan, the Ozone/Wayland answer from the process scan and the
/// session; the row is as `electron_app_facts` builds it.
pub fn electron_probe(
    profile: &AppProfile,
    bin: String,
    binary_head: &[u8],
    running: &Vec<Vec<String>>,
    xdg_session_type: Option<&str>,
) -> (r: Option<(AppFacts, Vec<String>)>)
    ensures
        ({
            let v = scanned_version(binary_head@);
            let w = ozone_spec(
                crate::electron::argv_views(running@),
                xdg_session_type matches Some(t) && lower_seq(t@) == "wayland"@,
            );
            &&& (v is None && w is None) <==> r is None
            &&& r matches Some((f, notes)) ==> {
                &&& f.app_id@ == profile.id@
                &&& f.binary_path == bin
                &&& f.version is None
                &&& f.kind == profile.kind_hint
                &&& opt_str(f.electron_version) == v
                &&& f.uses_wayland == w
                &&& string_views(f.detector_notes@) == electron_notes(profile.id@, v, w, running@.len() > 0)
                &&& string_views(notes@) == electron_notes(profile.id@, v, w, running@.len() > 0)
            }
        }),
{
    let version = if binary_head.len() == 0 {
        None
    } else {
        crate::electron::electron_version_in(binary_head)
    };
    let wayland = session_is_wayland(xdg_session_type);
    let uses = crate::electron::derive_uses_wayland(running, wayland);
    electron_app_facts(profile, bin, version, uses, running.len() > 0)
}

// ------------------------------------------------------------ case in resolving

proof fn lemma_lower_char(c: char)
    ensures
        crate::text::is_ws(lower(c)) == crate::text::is_ws(c),
        (lower(c) == '/') == (c == '/'),
        (lower(c) == '.') == (c == '.'),
{
    if 'A' <= c <= 'Z' {
        assert(lower(c) as u32 == c as u32 + 32);
    }
}

proof fn lemma_trim_start_lower(s: Seq<char>)
    ensures
        crate::text::trim_start(lower_seq(s)) == lower_seq(crate::text::trim_start(s)),
    decreases s.len(),
{
    if s.len() > 0 {
        lemma_lower_char(s[0]);
        assert(lower_seq(s)[0] == lower(s[0]));
        if crate::text::is_ws(s[0]) {
            assert(lower_seq(s).drop_first() =~= lower_seq(s.drop_first()));
            lemma_trim_start_lower(s.drop_first());
        }
    } else {
        assert(lower_seq(s) =~= s);
    }
}

proof fn lemma_trim_end_lower(s: Seq<char>)
    ensures
        crate::text::trim_end(lower_seq(s)) == lower_seq(crate::text::trim_end(s)),
    decreases s.len(),
{
    if s.len() > 0 {
        lemma_lower_char(s.last());
        assert(lower_seq(s).last() == lower(s.last()));
        if crate::text::is_ws(s.last()) {
            assert(lower_seq(s).drop_last() =~= lower_seq(s.drop_last()));
            lemma_trim_end_lower(s.drop_last());
        }
    } else {
        assert(lower_seq(s) =~= s);
    }
}

proof fn lemma_trim_lower(s: Seq<char>)
    ensures
        trim(lower_seq(s)) == lower_seq(trim(s)),
{
    lemma_trim_start_lower(s);
    lemma_trim_end_lower(crate::text::trim_start(s));
}

proof fn lemma_pieces_lower(s: Seq<char>, cur: Seq<char>)
    ensures
        crate::text::pieces_acc(lower_seq(s), '/', lower_seq(cur))
            == crate::text::pieces_acc(s, '/', cur).map_values(|p: Seq<char>| lower_seq(p)),
    decreases s.len(),
{
    let ls = lower_seq(s);
    if s.len() == 0 {
        assert(ls.len() == 0);
        assert(crate::text::pieces_acc(s, '/', cur).map_values(|p: Seq<char>| lower_seq(p)) =~= seq![lower_seq(cur)]);
    } else {
        lemma_lower_char(s[0]);
        assert(ls[0] == lower(s[0]));
        assert(ls.drop_first() =~= lower_seq(s.drop_first()));
        if s[0] == '/' {
            lemma_pieces_lower(s.drop_first(), seq![]);
            assert(lower_seq(Seq::<char>::empty()) =~= Seq::<char>::empty());
            let rest = crate::text::pieces_acc(s.drop_first(), '/', seq![]);
            assert((seq![cur] + rest).map_values(|p: Seq<char>| lower_seq(p))
                =~= seq![lower_seq(cur)] + rest.map_values(|p: Seq<char>| lower_seq(p)));
        } else {
            assert(lower_seq(cur.push(s[0])) =~= lower_seq(cur).push(lower(s[0])));
            lemma_pieces_lower(s.drop_first(), cur.push(s[0]));
        }
    }
}

proof fn lemma_named_lower(p: Seq<char>)
    ensures
        (lower_seq(p).len() > 0 && lower_seq(p) != "."@) == (p.len() > 0 && p != "."@),
        (lower_seq(p) == ".."@) == (p == ".."@),
{
    reveal_strlit(".");
    reveal_strlit("..");
    assert(lower_seq(p).len() == p.len());
    if p.len() == 1 {
        lemma_lower_char(p[0]);
        assert(lower_seq(p)[0] == lower(p[0]));
        if lower_seq(p) == "."@ {
            assert(p =~= "."@);
        }
        if p == "."@ {
            assert(lower_seq(p) =~= "."@);
        }
    }
    if p.len() == 2 {
        lemma_lower_char(p[0]);
        lemma_lower_char(p[1]);
        assert(lower_seq(p)[0] == lower(p[0]) && lower_seq(p)[1] == lower(p[1]));
        if lower_seq(p) == ".."@ {
            assert(p =~= ".."@);
        }
        if p == ".."@ {
            assert(lower_seq(p) =~= ".."@);
        }
    }
}

proof fn lemma_last_named_lower(parts: Seq<Seq<char>>)
    ensures
        last_named_part(parts.map_values(|p: Seq<char>| lower_seq(p))) == match last_named_part(parts) {
            Some(c) => Some(lower_seq(c)),
            None => None,
        },
    decreases parts.len(),
{
    let lp = parts.map_values(|p: Seq<char>| lower_seq(p));
    if parts.len() > 0 {
        lemma_named_lower(parts.last());
        assert(lp.last() == lower_seq(parts.last()));
        assert(lp.drop_last() =~= parts.drop_last().map_values(|p: Seq<char>| lower_seq(p)));
        lemma_last_named_lower(parts.drop_last());
    }
}

proof fn lemma_file_name_lower(t: Seq<char>)
    ensures
        file_name_spec(lower_seq(t)) == match file_name_spec(t) {
            Some(b) => Some(lower_seq(b)),
            None => None,
        },
{
    assert(lower_seq(Seq::<char>::empty()) =~= Seq::<char>::empty());
    lemma_pieces_lower(t, seq![]);
    lemma_last_named_lower(split_char(t, '/'));
    match last_named_part(split_char(t, '/')) {
        Some(c) => {
            lemma_named_lower(c);
        },
        None => {},
    }
}

/// Resolving a name ignores its case: a name and its lower-cased form
/// resolve to the same profile.
pub proof fn law_resolve_ignores_case(input: Seq<char>)
    ensures
        resolve_spec(input) == resolve_spec(lower_seq(input)),
{
    let t = trim(input);
    lemma_trim_lower(input);
    let lt = trim(lower_seq(input));
    assert(lt == lower_seq(t));
    lemma_lower_idempotent(t);
    assert(lt.len() == t.len());
    assert(lt.contains('/') == t.contains('/')) by {
        if t.contains('/') {
            let i = choose|i: int| 0 <= i < t.len() && t[i] == '/';
            lemma_lower_char(t[i]);
            assert(lt[i] == '/');
        }
        if lt.contains('/') {
            let i = choose|i: int| 0 <= i < lt.len() && lt[i] == '/';
            lemma_lower_char(t[i]);
            assert(t[i] == '/');
        }
    }
    lemma_file_name_lower(t);
    match file_name_spec(t) {
        Some(b) => {
            lemma_lower_idempotent(b);
        },
        None => {},
    }
}

} // verus!
