//! The detectors that need no outside service, and the pieces of the env
//! detectors' logic: where a user's files are, which snippet files are
//! read in which order, and how their assignments are merged.
use crate::managed::{lemma_lt_irreflexive, lemma_lt_transitive, lt_chars, pairs_map, seq_lt};
use crate::model::path_join;
use crate::text::{chars_of, slice_of, string_of, string_views};
use vstd::prelude::*;

verus! {

broadcast use vstd::seq_lib::group_to_multiset_ensures;

/// Reads `XDG_CURRENT_DESKTOP` and friends.
#[derive(Debug, Default, Clone, Copy)]
pub struct DesktopDetector;

/// Reads `/etc/os-release`.
#[derive(Debug, Default, Clone, Copy)]
pub struct DistroDetector;

/// Reads `/etc/environment`.
#[derive(Debug, Default, Clone, Copy)]
pub struct EtcEnvironmentDetector;

/// Reads `/etc/profile.d/*.sh`.
#[derive(Debug, Default, Clone, Copy)]
pub struct EtcProfileDDetector;

/// Reads `~/.profile`, `~/.bashrc`, `~/.zshrc` and
/// `~/.config/environment.d/*.conf`.
#[derive(Debug, Default, Clone, Copy)]
pub struct HomeProfileDetector;

/// Reads the process environment.
#[derive(Debug, Default, Clone, Copy)]
pub struct ProcessEnvDetector;

/// Reads Fcitx5's `profile` and addon configuration.
#[derive(Debug, Default, Clone, Copy)]
pub struct Fcitx5ConfigDetector;

/// Reads the locale variables.
#[derive(Debug, Default, Clone, Copy)]
pub struct LocaleDetector;

/// Reads the session type.
#[derive(Debug, Default, Clone, Copy)]
pub struct SessionDetector;

impl DesktopDetector {
    pub fn new() -> (d: DesktopDetector) {
        DesktopDetector
    }

    /// The detector's stable id.
    pub fn id(&self) -> (s: &'static str)
        ensures
            s@ == "sys.desktop"@,
    {
        "sys.desktop"
    }

    /// How long the detector may run, in milliseconds.
    pub fn timeout_millis(&self) -> (ms: u64)
        ensures
            ms == 100,
    {
        100
    }
}

impl DistroDetector {
    pub fn new() -> (d: DistroDetector) {
        DistroDetector
    }

    pub fn id(&self) -> (s: &'static str)
        ensures
            s@ == "sys.distro"@,
    {
        "sys.distro"
    }

    pub fn timeout_millis(&self) -> (ms: u64)
        ensures
            ms == 1000,
    {
        1000
    }
}

impl EtcEnvironmentDetector {
    pub fn new() -> (d: EtcEnvironmentDetector) {
        EtcEnvironmentDetector
    }

    pub fn id(&self) -> (s: &'static str)
        ensures
            s@ == "env.etc_environment"@,
    {
        "env.etc_environment"
    }

    pub fn timeout_millis(&self) -> (ms: u64)
        ensures
            ms == 1000,
    {
        1000
    }
}

impl EtcProfileDDetector {
    pub fn new() -> (d: EtcProfileDDetector) {
        EtcProfileDDetector
    }

    pub fn id(&self) -> (s: &'static str)
        ensures
            s@ == "env.etc_profile_d"@,
    {
        "env.etc_profile_d"
    }

    pub fn timeout_millis(&self) -> (ms: u64)
        ensures
            ms == 2000,
    {
        2000
    }
}

impl HomeProfileDetector {
    pub fn new() -> (d: HomeProfileDetector) {
        HomeProfileDetector
    }

    pub fn id(&self) -> (s: &'static str)
        ensures
            s@ == "env.home_profile"@,
    {
        "env.home_profile"
    }

    pub fn timeout_millis(&self) -> (ms: u64)
        ensures
            ms == 2000,
    {
        2000
    }
}

impl ProcessEnvDetector {
    pub fn new() -> (d: ProcessEnvDetector) {
        ProcessEnvDetector
    }

    pub fn id(&self) -> (s: &'static str)
        ensures
            s@ == "env.process"@,
    {
        "env.process"
    }

    pub fn timeout_millis(&self) -> (ms: u64)
        ensures
            ms == 100,
    {
        100
    }
}

impl Fcitx5ConfigDetector {
    pub fn new() -> (d: Fcitx5ConfigDetector) {
        Fcitx5ConfigDetector
    }

    pub fn id(&self) -> (s: &'static str)
        ensures
            s@ == "im.fcitx5.config"@,
    {
        "im.fcitx5.config"
    }

    pub fn timeout_millis(&self) -> (ms: u64)
        ensures
            ms == 1000,
    {
        1000
    }
}

impl LocaleDetector {
    pub fn new() -> (d: LocaleDetector) {
        LocaleDetector
    }

    pub fn id(&self) -> (s: &'static str)
        ensures
            s@ == "sys.locale"@,
    {
        "sys.locale"
    }

    pub fn timeout_millis(&self) -> (ms: u64)
        ensures
            ms == 50,
    {
        50
    }

    /// The effective locale from `LC_ALL`, `LC_CTYPE` and `LANG`: the first
    /// of them that is set to something non-empty (an empty value counts
    /// as unset, as `setlocale` treats it), with the detector's note.
    pub fn effective_locale(&self, lc_all: Option<&str>, lc_ctype: Option<&str>, lang: Option<&str>) -> (r: (Option<String>, Vec<String>))
        ensures
            opt_strings(r.0) == effective_locale_spec(opt_strs(lc_all), opt_strs(lc_ctype), opt_strs(lang)),
            string_views(r.1@) == match effective_locale_spec(opt_strs(lc_all), opt_strs(lc_ctype), opt_strs(lang)) {
                Some(l) => seq!["effective locale: "@ + l],
                None => seq!["no LC_ALL / LC_CTYPE / LANG set"@],
            },
    {
        let pick = |v: Option<&str>| -> (o: Option<String>)
            ensures
                opt_strings(o) == (match opt_strs(v) {
                    Some(x) => if x.len() > 0 { Some(x) } else { None },
                    None => None,
                }),
        {
            match v {
                Some(x) => if x.unicode_len() > 0 { Some(x.to_owned()) } else { None },
                None => None,
            }
        };
        let mut locale = pick(lc_all);
        if locale.is_none() {
            locale = pick(lc_ctype);
        }
        if locale.is_none() {
            locale = pick(lang);
        }
        let mut notes: Vec<String> = Vec::new();
        match &locale {
            Some(l) => {
                let mut v = chars_of("effective locale: ");
                crate::text::append_str(&mut v, l.as_str());
                notes.push(string_of(&v));
            },
            None => {
                notes.push("no LC_ALL / LC_CTYPE / LANG set".to_owned());
            },
        }
        assert(string_views(notes@) =~= match effective_locale_spec(opt_strs(lc_all), opt_strs(lc_ctype), opt_strs(lang)) {
            Some(l) => seq!["effective locale: "@ + l],
            None => seq!["no LC_ALL / LC_CTYPE / LANG set"@],
        });
        (locale, notes)
    }
}

pub open spec fn opt_strs(o: Option<&str>) -> Option<Seq<char>> {
    match o {
        Some(s) => Some(s@),
        None => None,
    }
}

pub open spec fn opt_strings(o: Option<String>) -> Option<Seq<char>> {
    match o {
        Some(s) => Some(s@),
        None => None,
    }
}

/// A variable's value where it is set to something non-empty.
pub open spec fn non_empty(v: Option<Seq<char>>) -> Option<Seq<char>> {
    match v {
        Some(x) => if x.len() > 0 { Some(x) } else { None },
        None => None,
    }
}

/// `LC_ALL` over `LC_CTYPE` over `LANG`, skipping empty values.
pub open spec fn effective_locale_spec(lc_all: Option<Seq<char>>, lc_ctype: Option<Seq<char>>, lang: Option<Seq<char>>) -> Option<Seq<char>> {
    match non_empty(lc_all) {
        Some(x) => Some(x),
        None => match non_empty(lc_ctype) {
            Some(x) => Some(x),
            None => non_empty(lang),
        },
    }
}

impl SessionDetector {
    pub fn new() -> (d: SessionDetector) {
        SessionDetector
    }

    pub fn id(&self) -> (s: &'static str)
        ensures
            s@ == "sys.session"@,
    {
        "sys.session"
    }

    pub fn timeout_millis(&self) -> (ms: u64)
        ensures
            ms == 100,
    {
        100
    }
}

/// Resolves `--app` to a profile and probes the binary's path, version and kind.
#[derive(Debug, Default, Clone, Copy)]
pub struct GenericAppDetector;

/// Reads an Electron or Chromium app's runtime version and Ozone/Wayland use.
#[derive(Debug, Default, Clone, Copy)]
pub struct ElectronAppDetector;

/// Reads the systemd `--user` environment.
#[derive(Debug, Default, Clone, Copy)]
pub struct SystemdEnvDetector;

/// Probes the Fcitx5 daemon: D-Bus name, `pgrep`, `--version`.
#[derive(Debug, Default, Clone, Copy)]
pub struct Fcitx5DaemonDetector;

/// Probes the IBus daemon: D-Bus name, `pgrep`, `--version`.
#[derive(Debug, Default, Clone, Copy)]
pub struct IbusDaemonDetector;

/// Lists the engines IBus has registered.
#[derive(Debug, Default, Clone, Copy)]
pub struct IbusEnginesDetector;

/// Lists the input-method engine packages the package manager knows of.
#[derive(Debug, Default, Clone, Copy)]
pub struct PackageEnginesDetector;

impl GenericAppDetector {
    pub fn new() -> (d: GenericAppDetector) {
        GenericAppDetector
    }

    /// The detector's stable id.
    pub fn id(&self) -> (s: &'static str)
        ensures
            s@ == "app.generic"@,
    {
        "app.generic"
    }

    /// How long the detector may run, in milliseconds.
    pub fn timeout_millis(&self) -> (ms: u64)
        ensures
            ms == 4000,
    {
        4000
    }
}

impl ElectronAppDetector {
    pub fn new() -> (d: ElectronAppDetector) {
        ElectronAppDetector
    }

    /// The detector's stable id.
    pub fn id(&self) -> (s: &'static str)
        ensures
            s@ == "app.electron"@,
    {
        "app.electron"
    }

    /// How long the detector may run, in milliseconds.
    pub fn timeout_millis(&self) -> (ms: u64)
        ensures
            ms == 4000,
    {
        4000
    }
}

impl SystemdEnvDetector {
    pub fn new() -> (d: SystemdEnvDetector) {
        SystemdEnvDetector
    }

    /// The detector's stable id.
    pub fn id(&self) -> (s: &'static str)
        ensures
            s@ == "env.systemd"@,
    {
        "env.systemd"
    }

    /// How long the detector may run, in milliseconds.
    pub fn timeout_millis(&self) -> (ms: u64)
        ensures
            ms == 3000,
    {
        3000
    }
}

impl Fcitx5DaemonDetector {
    pub fn new() -> (d: Fcitx5DaemonDetector) {
        Fcitx5DaemonDetector
    }

    /// The detector's stable id.
    pub fn id(&self) -> (s: &'static str)
        ensures
            s@ == "im.fcitx5.daemon"@,
    {
        "im.fcitx5.daemon"
    }

    /// How long the detector may run, in milliseconds.
    pub fn timeout_millis(&self) -> (ms: u64)
        ensures
            ms == 3000,
    {
        3000
    }
}

impl IbusDaemonDetector {
    pub fn new() -> (d: IbusDaemonDetector) {
        IbusDaemonDetector
    }

    /// The detector's stable id.
    pub fn id(&self) -> (s: &'static str)
        ensures
            s@ == "im.ibus.daemon"@,
    {
        "im.ibus.daemon"
    }

    /// How long the detector may run, in milliseconds.
    pub fn timeout_millis(&self) -> (ms: u64)
        ensures
            ms == 3000,
    {
        3000
    }
}

impl IbusEnginesDetector {
    pub fn new() -> (d: IbusEnginesDetector) {
        IbusEnginesDetector
    }

    /// The detector's stable id.
    pub fn id(&self) -> (s: &'static str)
        ensures
            s@ == "im.ibus.engines"@,
    {
        "im.ibus.engines"
    }

    /// How long the detector may run, in milliseconds.
    pub fn timeout_millis(&self) -> (ms: u64)
        ensures
            ms == 3000,
    {
        3000
    }
}

impl PackageEnginesDetector {
    pub fn new() -> (d: PackageEnginesDetector) {
        PackageEnginesDetector
    }

    /// The detector's stable id.
    pub fn id(&self) -> (s: &'static str)
        ensures
            s@ == "im.engines.packages"@,
    {
        "im.engines.packages"
    }

    /// How long the detector may run, in milliseconds.
    pub fn timeout_millis(&self) -> (ms: u64)
        ensures
            ms == 5000,
    {
        5000
    }
}

// ------------------------------------------------------------ paths

/// `Path::strip_prefix("/")` on text: an absolute path loses its leading
/// slashes, a relative one is kept.
pub open spec fn strip_root(p: Seq<char>) -> Seq<char>
    decreases p.len(),
{
    if p.len() > 0 && p[0] == '/' {
        strip_root(p.drop_first())
    } else {
        p
    }
}

/// The home directory as the detectors see it: under the test sysroot
/// where there is one.
pub open spec fn home_root(home: Seq<char>, sysroot: Option<Seq<char>>) -> Seq<char> {
    match sysroot {
        Some(r) => path_join(r, strip_root(home)),
        None => home,
    }
}

/// `$HOME/<rel>` under the sysroot where one is set; `None` where `HOME`
/// is not set.
pub open spec fn home_subdir(home: Option<Seq<char>>, sysroot: Option<Seq<char>>, rel: Seq<char>) -> Option<Seq<char>> {
    match home {
        Some(h) => Some(path_join(home_root(h, sysroot), rel)),
        None => None,
    }
}

/// `$HOME/<rel>`, resolved under the sysroot where one is set; `None`
/// where `HOME` is not set.
pub fn resolve_home_subdir(home: Option<&str>, sysroot: Option<&str>, rel: &str) -> (r: Option<String>)
    ensures
        match home {
            None => r is None,
            Some(h) => r matches Some(p) && p@ == path_join(
                home_root(
                    h@,
                    match sysroot {
                        Some(s) => Some(s@),
                        None => None,
                    },
                ),
                rel@,
            ),
        },
{
    let h = match home {
        Some(h) => h,
        None => {
            return None;
        },
    };
    let root = match sysroot {
        Some(s) => {
            let hc = chars_of(h);
            let mut i: usize = 0;
            assert(hc@.skip(0) =~= hc@);
            while i < hc.len() && hc[i] == '/'
                invariant
                    i <= hc.len(),
                    strip_root(hc@) == strip_root(hc@.skip(i as int)),
                decreases hc.len() - i,
            {
                assert(hc@.skip(i as int).drop_first() =~= hc@.skip(i + 1));
                i += 1;
            }
            let rest = slice_of(&hc, i, hc.len());
            assert(rest@ =~= hc@.skip(i as int));
            let rs = string_of(&rest);
            crate::model::join_path(s, rs.as_str())
        },
        None => h.to_owned(),
    };
    Some(crate::model::join_path(root.as_str(), rel))
}

// ------------------------------------------------------------ snippet files

/// `Path::extension` of a file name: the text after the last `.`, where
/// that `.` is not the name's first character.
pub open spec fn extension_of(name: Seq<char>) -> Option<Seq<char>>
    decreases name.len(),
{
    if name.len() <= 1 {
        None
    } else if name.last() == '.' {
        Some(seq![])
    } else {
        match extension_of(name.drop_last()) {
            Some(e) => Some(e.push(name.last())),
            None => None,
        }
    }
}

fn extension_exec(name: &Vec<char>) -> (r: Option<Vec<char>>)
    ensures
        match r {
            Some(e) => extension_of(name@) == Some(e@),
            None => extension_of(name@) is None,
        },
{
    let n = name.len();
    if n <= 1 {
        return None;
    }
    let mut i: usize = n - 1;
    assert(name@.take(n as int) =~= name@);
    proof {
        match extension_of(name@) {
            Some(e) => {
                assert(e + name@.subrange(n as int, n as int) =~= e);
            },
            None => {},
        }
    }
    while i >= 1 && name[i] != '.'
        invariant
            n == name.len(),
            n >= 2,
            0 <= i < n,
            forall|j: int| i < j < n ==> name@[j] != '.',
            extension_of(name@) == match extension_of(name@.take(i + 1)) {
                Some(e) => Some(e + name@.subrange(i + 1, n as int)),
                None => None::<Seq<char>>,
            },
        decreases i,
    {
        proof {
            let t = name@.take(i + 1);
            assert(t.len() == i + 1);
            assert(t.drop_last() =~= name@.take(i as int));
            assert(t.last() == name@[i as int]);
            match extension_of(name@.take(i as int)) {
                Some(e) => {
                    assert(e.push(name@[i as int]) + name@.subrange(i + 1, n as int) =~= e + name@.subrange(i as int, n as int));
                },
                None => {},
            }
        }
        i -= 1;
    }
    if i == 0 {
        assert(extension_of(name@.take(1)) is None);
        return None;
    }
    proof {
        let t = name@.take(i + 1);
        assert(t.last() == '.');
        assert(extension_of(t) == Some(Seq::<char>::empty()));
        assert(Seq::<char>::empty() + name@.subrange(i + 1, n as int) =~= name@.subrange(i + 1, n as int));
    }
    Some(slice_of(name, i + 1, n))
}

/// No name is greater than a later one.
pub open spec fn ordered(s: Seq<Seq<char>>) -> bool {
    forall|i: int, j: int| 0 <= i < j < s.len() ==> !seq_lt(#[trigger] s[j], #[trigger] s[i])
}

/// The names with extension `ext`, in input order.
pub open spec fn with_extension(names: Seq<Seq<char>>, ext: Seq<char>) -> Seq<Seq<char>>
    decreases names.len(),
{
    if names.len() == 0 {
        seq![]
    } else {
        let r = with_extension(names.drop_last(), ext);
        if extension_of(names.last()) == Some(ext) {
            r.push(names.last())
        } else {
            r
        }
    }
}

fn insert_ordered(out: &mut Vec<Vec<char>>, x: Vec<char>)
    requires
        ordered(crate::text::views(old(out)@)),
    ensures
        ordered(crate::text::views(final(out)@)),
        crate::text::views(final(out)@).to_multiset() == crate::text::views(old(out)@).to_multiset().insert(x@),
{
    let ghost xs = x@;
    let ghost o = crate::text::views(out@);
    let mut k: usize = 0;
    while k < out.len() && !lt_chars(&x, &out[k])
        invariant
            k <= out.len(),
            xs == x@,
            o == crate::text::views(out@),
            forall|j: int| 0 <= j < k ==> !seq_lt(xs, #[trigger] o[j]),
        decreases out.len() - k,
    {
        assert(o[k as int] == out@[k as int]@);
        k += 1;
    }
    if k < out.len() {
        assert(o[k as int] == out@[k as int]@);
    }
    assert(k < o.len() ==> seq_lt(xs, o[k as int]));
    out.insert(k, x);
    let ghost n = crate::text::views(out@);
    assert(n =~= o.insert(k as int, xs));
    assert forall|i: int, j: int| 0 <= i < j < n.len() implies !seq_lt(#[trigger] n[j], #[trigger] n[i]) by {
        if j < k {
            assert(n[i] == o[i] && n[j] == o[j]);
            assert(!seq_lt(o[j], o[i]));
        } else if j == k {
            assert(n[i] == o[i] && n[j] == xs);
            assert(!seq_lt(xs, o[i]));
        } else if i == k {
            assert(n[i] == xs && n[j] == o[j - 1]);
            assert(seq_lt(xs, o[k as int]));
            if seq_lt(o[j - 1], xs) {
                lemma_lt_transitive(o[j - 1], xs, o[k as int]);
                if j - 1 > k {
                    assert(!seq_lt(o[j - 1], o[k as int]));
                } else {
                    lemma_lt_irreflexive(o[k as int]);
                }
            }
        } else if i < k {
            assert(n[i] == o[i] && n[j] == o[j - 1]);
            assert(!seq_lt(o[j - 1], o[i]));
        } else {
            assert(n[i] == o[i - 1] && n[j] == o[j - 1]);
            assert(!seq_lt(o[j - 1], o[i - 1]));
        }
    }
}

/// The names with extension `ext`, sorted as `Path` sorts them (by
/// character, which is byte order for UTF-8).
pub fn select_sorted(names: &Vec<String>, ext: &str) -> (r: Vec<String>)
    ensures
        ordered(string_views(r@)),
        string_views(r@).to_multiset() == with_extension(string_views(names@), ext@).to_multiset(),
{
    let e = chars_of(ext);
    let ghost ns = string_views(names@);
    let mut out: Vec<Vec<char>> = Vec::new();
    let mut i: usize = 0;
    assert(ns.take(0) =~= Seq::<Seq<char>>::empty());
    assert(crate::text::views(out@) =~= Seq::<Seq<char>>::empty());
    while i < names.len()
        invariant
            i <= names.len(),
            ns == string_views(names@),
            e@ == ext@,
            ordered(crate::text::views(out@)),
            crate::text::views(out@).to_multiset() == with_extension(ns.take(i as int), ext@).to_multiset(),
        decreases names.len() - i,
    {
        assert(ns.take(i + 1).drop_last() =~= ns.take(i as int));
        assert(ns.take(i + 1).last() == names@[i as int]@);
        let n = chars_of(names[i].as_str());
        let x = extension_exec(&n);
        let matches = match &x {
            Some(xe) => crate::text::seq_eq(xe, &e),
            None => false,
        };
        if matches {
            let ghost w = with_extension(ns.take(i as int), ext@);
            insert_ordered(&mut out, n);
            assert(w.push(names@[i as int]@).to_multiset() == w.to_multiset().insert(names@[i as int]@));
        }
        i += 1;
    }
    assert(ns.take(names.len() as int) =~= ns);
    let r = crate::text::strings_of(&out);
    r
}

// ------------------------------------------------------------ first wins

/// The assignments of a map-like list of pairs, a later pair winning.
pub open spec fn pair_views(v: Seq<(String, String)>) -> Seq<(Seq<char>, Seq<char>)> {
    Seq::new(v.len(), |i: int| (v[i].0@, v[i].1@))
}

/// Merging `nm` into `m` over the keys `ks`, in order: a key already set
/// keeps its value; an unset key takes `nm`'s value where it has one.
pub open spec fn merge_keys(
    m: Map<Seq<char>, Seq<char>>,
    nm: Map<Seq<char>, Seq<char>>,
    ks: Seq<Seq<char>>,
) -> Map<Seq<char>, Seq<char>>
    decreases ks.len(),
{
    if ks.len() == 0 {
        m
    } else {
        let m1 = merge_keys(m, nm, ks.drop_last());
        let k = ks.last();
        if m1.contains_key(k) {
            m1
        } else if nm.contains_key(k) {
            m1.insert(k, nm[k])
        } else {
            m1
        }
    }
}

proof fn lemma_pairs_map_last(e: Seq<(Seq<char>, Seq<char>)>, k: Seq<char>, n: int)
    requires
        0 <= n <= e.len(),
        forall|j: int| n <= j < e.len() ==> e[j].0 != k,
    ensures
        pairs_map(e).contains_key(k) == pairs_map(e.take(n)).contains_key(k),
        pairs_map(e).contains_key(k) ==> pairs_map(e)[k] == pairs_map(e.take(n))[k],
    decreases e.len() - n,
{
    if n < e.len() {
        assert(e.drop_last().take(n) =~= e.take(n));
        lemma_pairs_map_last(e.drop_last(), k, n);
    } else {
        assert(e.take(n) =~= e);
    }
}

/// Looks `key` up in a list of pairs, a later pair winning.
fn lookup_pairs(v: &Vec<(String, String)>, key: &String) -> (r: Option<String>)
    ensures
        match r {
            Some(x) => pairs_map(pair_views(v@)).contains_key(key@) && pairs_map(pair_views(v@))[key@] == x@,
            None => !pairs_map(pair_views(v@)).contains_key(key@),
        },
{
    let ghost e = pair_views(v@);
    let mut n: usize = v.len();
    while n > 0
        invariant
            n <= v.len(),
            e == pair_views(v@),
            forall|j: int| n <= j < e.len() ==> e[j].0 != key@,
        decreases n,
    {
        if v[n - 1].0 == *key {
            proof {
                lemma_pairs_map_last(e, key@, n as int);
                assert(e.take(n as int).drop_last() =~= e.take(n - 1));
                assert(e.take(n as int).last() == e[n - 1]);
            }
            return Some(v[n - 1].1.clone());
        }
        n -= 1;
    }
    proof {
        lemma_pairs_map_last(e, key@, 0);
        assert(e.take(0) =~= Seq::<(Seq<char>, Seq<char>)>::empty());
    }
    None
}

/// Merges `next` into `acc` for the given keys: only keys not yet set in
/// `acc` are taken, so the first file read wins.
pub fn merge_first_wins(acc: &mut Vec<(String, String)>, next: &Vec<(String, String)>, keys: &[&str])
    ensures
        pairs_map(pair_views(final(acc)@)) == merge_keys(
            pairs_map(pair_views(old(acc)@)),
            pairs_map(pair_views(next@)),
            Seq::new(keys@.len(), |i: int| keys@[i]@),
        ),
{
    let ghost ks = Seq::new(keys@.len(), |i: int| keys@[i]@);
    let ghost m0 = pairs_map(pair_views(acc@));
    let ghost nm = pairs_map(pair_views(next@));
    let mut i: usize = 0;
    assert(ks.take(0) =~= Seq::<Seq<char>>::empty());
    while i < keys.len()
        invariant
            i <= keys.len(),
            ks == Seq::new(keys@.len(), |i: int| keys@[i]@),
            m0 == pairs_map(pair_views(old(acc)@)),
            nm == pairs_map(pair_views(next@)),
            pairs_map(pair_views(acc@)) == merge_keys(m0, nm, ks.take(i as int)),
        decreases keys.len() - i,
    {
        assert(ks.take(i + 1).drop_last() =~= ks.take(i as int));
        assert(ks.take(i + 1).last() == keys@[i as int]@);
        let k = keys[i].to_owned();
        let have = lookup_pairs(acc, &k);
        if have.is_none() {
            match lookup_pairs(next, &k) {
                Some(v) => {
                    let ghost before = pair_views(acc@);
                    acc.push((k, v));
                    assert(pair_views(acc@) =~= before.push((keys@[i as int]@, nm[keys@[i as int]@])));
                    assert(pair_views(acc@).drop_last() =~= before);
                },
                None => {},
            }
        }
        i += 1;
    }
    assert(ks.take(keys.len() as int) =~= ks);
}


// ------------------------------------------------------------ env detectors

/// One file an environment detector read: its path, and the assignments
/// parsed from it (`None` where it could not be read).
#[derive(Debug)]
pub struct ReadEnvFile {
    pub path: String,
    pub assignments: Option<Vec<(String, String)>>,
}

/// What an environment detector reports: the values of the watched keys,
/// and one note per file it read.
#[derive(Debug)]
pub struct EnvScan {
    pub vars: Vec<(String, String)>,
    pub notes: Vec<String>,
}

/// The watched keys as text.
pub open spec fn key_views(keys: Seq<&str>) -> Seq<Seq<char>> {
    Seq::new(keys.len(), |i: int| keys[i]@)
}

/// The values the files give for the keys `ks`, files read in order: for
/// each key the first file that sets it wins; unreadable files count for
/// nothing.
pub open spec fn scan_vars(files: Seq<ReadEnvFile>, ks: Seq<Seq<char>>) -> Map<Seq<char>, Seq<char>>
    decreases files.len(),
{
    if files.len() == 0 {
        Map::empty()
    } else {
        let prev = scan_vars(files.drop_last(), ks);
        match files.last().assignments {
            Some(a) => merge_keys(prev, pairs_map(pair_views(a@)), ks),
            None => prev,
        }
    }
}

/// One `parsed <path>` note per file that could be read, in order.
pub open spec fn scan_notes(files: Seq<ReadEnvFile>) -> Seq<Seq<char>>
    decreases files.len(),
{
    if files.len() == 0 {
        seq![]
    } else {
        scan_notes(files.drop_last()) + match files.last().assignments {
            Some(_) => seq!["parsed "@ + files.last().path@],
            None => seq![],
        }
    }
}

proof fn lemma_no_notes_no_vars(files: Seq<ReadEnvFile>, ks: Seq<Seq<char>>)
    requires
        scan_notes(files).len() == 0,
    ensures
        scan_vars(files, ks) == Map::<Seq<char>, Seq<char>>::empty(),
    decreases files.len(),
{
    if files.len() > 0 {
        lemma_no_notes_no_vars(files.drop_last(), ks);
    }
}

/// Composes what an environment detector read into its report: the
/// watched keys' values, the first file setting a key winning, and a note
/// per file read; nothing at all where no value was found and no file
/// was read.
pub fn scan_env_files(files: &Vec<ReadEnvFile>, keys: &[&str]) -> (r: Option<EnvScan>)
    ensures
        r is None <==> (scan_vars(files@, key_views(keys@)).dom().len() == 0 && scan_notes(files@).len() == 0),
        r matches Some(sc) ==> {
            &&& pairs_map(pair_views(sc.vars@)) == scan_vars(files@, key_views(keys@))
            &&& string_views(sc.notes@) == scan_notes(files@)
        },
{
    let ghost ks = key_views(keys@);
    let mut vars: Vec<(String, String)> = Vec::new();
    let mut notes: Vec<String> = Vec::new();
    let mut i: usize = 0;
    assert(files@.take(0) =~= Seq::<ReadEnvFile>::empty());
    assert(pair_views(vars@) =~= Seq::<(Seq<char>, Seq<char>)>::empty());
    assert(string_views(notes@) =~= Seq::<Seq<char>>::empty());
    while i < files.len()
        invariant
            i <= files.len(),
            ks == key_views(keys@),
            pairs_map(pair_views(vars@)) == scan_vars(files@.take(i as int), ks),
            string_views(notes@) == scan_notes(files@.take(i as int)),
        decreases files.len() - i,
    {
        assert(files@.take(i + 1).drop_last() =~= files@.take(i as int));
        assert(files@.take(i + 1).last() == files@[i as int]);
        match &files[i].assignments {
            Some(a) => {
                merge_first_wins(&mut vars, a, keys);
                assert(Seq::new(keys@.len(), |j: int| keys@[j]@) == ks);
                let mut c = chars_of("parsed ");
                crate::text::append_str(&mut c, files[i].path.as_str());
                let ghost before = string_views(notes@);
                notes.push(string_of(&c));
                assert(string_views(notes@) =~= before + seq!["parsed "@ + files@[i as int].path@]);
            },
            None => {},
        }
        i += 1;
    }
    assert(files@.take(files.len() as int) =~= files@);
    let ghost m = scan_vars(files@, ks);
    if notes.len() == 0 {
        proof {
            lemma_no_notes_no_vars(files@, ks);
            assert(m.dom() =~= Set::<Seq<char>>::empty());
        }
        return None;
    }
    Some(EnvScan { vars, notes })
}

/// Each name joined onto `dir`.
pub open spec fn joined_all(dir: Seq<char>, names: Seq<Seq<char>>) -> Seq<Seq<char>> {
    Seq::new(names.len(), |i: int| path_join(dir, names[i]))
}

fn join_all(dir: &str, names: &Vec<String>, out: &mut Vec<String>)
    ensures
        string_views(final(out)@) == string_views(old(out)@) + joined_all(dir@, string_views(names@)),
{
    let ghost start = string_views(out@);
    let mut i: usize = 0;
    while i < names.len()
        invariant
            i <= names.len(),
            string_views(out@) == start + joined_all(dir@, string_views(names@)).take(i as int),
        decreases names.len() - i,
    {
        let p = crate::model::join_path(dir, names[i].as_str());
        let ghost before = string_views(out@);
        out.push(p);
        assert(string_views(out@) =~= before.push(path_join(dir@, names@[i as int]@)));
        assert(joined_all(dir@, string_views(names@)).take(i + 1) =~= joined_all(dir@, string_views(names@)).take(i as int).push(path_join(dir@, names@[i as int]@)));
        i += 1;
    }
    assert(joined_all(dir@, string_views(names@)).take(names.len() as int) =~= joined_all(dir@, string_views(names@)));
}

/// The `.conf` files of a directory listing in the order they are read:
/// by name.
pub open spec fn sorted_as_read(q: Seq<Seq<char>>, names: Seq<Seq<char>>, ext: Seq<char>) -> bool {
    ordered(q) && q.to_multiset() == with_extension(names, ext).to_multiset()
}

/// The files the home-profile detector reads, in order: `~/.profile`,
/// `~/.bashrc`, `~/.zshrc`, then the `.conf` files named in `env_d_names`
/// (the listing of `~/.config/environment.d`) by name; all under the
/// sysroot where one is set. `None` where `HOME` is not set.
pub fn home_profile_paths(home: Option<&str>, sysroot: Option<&str>, env_d_names: &Vec<String>) -> (r: Option<Vec<String>>)
    ensures
        match home {
            None => r is None,
            Some(h) => r matches Some(ps) && {
                let root = home_root(h@, crate::daemons::opt_seq(sysroot));
                exists|q: Seq<Seq<char>>| #[trigger] sorted_as_read(q, string_views(env_d_names@), "conf"@)
                    && string_views(ps@) == seq![path_join(root, ".profile"@), path_join(root, ".bashrc"@), path_join(root, ".zshrc"@)]
                        + joined_all(path_join(root, ".config/environment.d"@), q)
            },
        },
{
    let profile = match resolve_home_subdir(home, sysroot, ".profile") {
        Some(p) => p,
        None => {
            return None;
        },
    };
    let bashrc = resolve_home_subdir(home, sysroot, ".bashrc").unwrap();
    let zshrc = resolve_home_subdir(home, sysroot, ".zshrc").unwrap();
    let env_d = resolve_home_subdir(home, sysroot, ".config/environment.d").unwrap();
    let confs = select_sorted(env_d_names, "conf");
    let mut out: Vec<String> = Vec::new();
    out.push(profile);
    out.push(bashrc);
    out.push(zshrc);
    let ghost head = string_views(out@);
    join_all(env_d.as_str(), &confs, &mut out);
    proof {
        assert(sorted_as_read(string_views(confs@), string_views(env_d_names@), "conf"@));
    }
    Some(out)
}

/// The snippet directory: `/etc/profile.d`, under the sysroot where one
/// is set.
pub open spec fn profile_d_dir(sysroot: Option<Seq<char>>) -> Seq<char> {
    let base = match sysroot {
        Some(s) => s,
        None => "/"@,
    };
    path_join(path_join(base, "etc"@), "profile.d"@)
}

/// The directory the `/etc/profile.d` detector lists.
pub fn profile_d_dir_of(sysroot: Option<&str>) -> (d: String)
    ensures
        d@ == profile_d_dir(crate::daemons::opt_seq(sysroot)),
{
    let base = match sysroot {
        Some(s) => s,
        None => "/",
    };
    let etc = crate::model::join_path(base, "etc");
    crate::model::join_path(etc.as_str(), "profile.d")
}

/// The snippets the `/etc/profile.d` detector reads, in order: the `.sh`
/// files named in the directory's listing `names`, by name.
pub fn profile_d_paths(sysroot: Option<&str>, names: &Vec<String>) -> (r: Vec<String>)
    ensures
        exists|q: Seq<Seq<char>>| #[trigger] sorted_as_read(q, string_views(names@), "sh"@)
            && string_views(r@) == joined_all(profile_d_dir(crate::daemons::opt_seq(sysroot)), q),
{
    let dir = profile_d_dir_of(sysroot);
    let scripts = select_sorted(names, "sh");
    let mut out: Vec<String> = Vec::new();
    join_all(dir.as_str(), &scripts, &mut out);
    proof {
        assert(string_views(out@) =~= joined_all(dir@, string_views(scripts@)));
        assert(sorted_as_read(string_views(scripts@), string_views(names@), "sh"@));
    }
    out
}

} // verus!
