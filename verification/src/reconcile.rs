//! How the doctor combines what several detectors found: which framework
//! is active, which engines count as registered, and which
//! recommendations a report lists.
use crate::checkers::{AppFacts, AppKind, Issue, IssueView};
use crate::daemons::{Fcitx5Facts, IbusFacts};
use crate::managed::{lemma_lt_total, lemma_lt_transitive, lt_chars, seq_lt};
use crate::model::{ActiveFramework, ImFramework};
use crate::recommendations::{find_rec, lookup, rec_views, Recommendation, RecommendationView};
use crate::text::{chars_of, opt_view, string_views, views};
use vstd::prelude::*;

verus! {

/// The active framework from the two daemons' facts: both running is a
/// conflict, one running is that one, none running is none.
pub open spec fn active_spec(ibus_up: bool, fcitx5_up: bool) -> ActiveFramework {
    if ibus_up && fcitx5_up {
        ActiveFramework::Conflict
    } else if ibus_up {
        ActiveFramework::Ibus
    } else if fcitx5_up {
        ActiveFramework::Fcitx5
    } else {
        ActiveFramework::NoFramework
    }
}

/// Which framework is active, from the daemon detectors' facts.
pub fn derive_active(ibus: Option<&IbusFacts>, fcitx5: Option<&Fcitx5Facts>) -> (a: ActiveFramework)
    ensures
        a == active_spec(
            ibus matches Some(f) && f.daemon_running,
            fcitx5 matches Some(f) && f.daemon_running,
        ),
{
    let ibus_up = match ibus {
        Some(f) => f.daemon_running,
        None => false,
    };
    let fcitx5_up = match fcitx5 {
        Some(f) => f.daemon_running,
        None => false,
    };
    if ibus_up && fcitx5_up {
        ActiveFramework::Conflict
    } else if ibus_up {
        ActiveFramework::Ibus
    } else if fcitx5_up {
        ActiveFramework::Fcitx5
    } else {
        ActiveFramework::NoFramework
    }
}

/// One input-method engine seen on the host.
#[derive(Debug, Clone)]
pub struct EngineFact {
    pub name: String,
    pub package: Option<String>,
    pub version: Option<String>,
    pub framework: ImFramework,
    pub is_vietnamese: bool,
    pub is_registered: bool,
}

/// A framework's registration of an engine name, as the detectors
/// confirm it: IBus's engine list, Fcitx5's configured input methods, or
/// an engine row already marked registered.
pub open spec fn confirmed(
    ibus: Option<IbusFacts>,
    fcitx5: Option<Fcitx5Facts>,
    engines: Seq<EngineFact>,
    fw: ImFramework,
    name: Seq<char>,
) -> bool {
    ||| (fw == ImFramework::Ibus && (ibus matches Some(f) && string_views(f.registered_engines@).contains(name)))
    ||| (fw == ImFramework::Fcitx5 && (fcitx5 matches Some(f) && string_views(f.input_methods_configured@).contains(name)))
    ||| exists|j: int| 0 <= j < engines.len() && (#[trigger] engines[j]).is_registered && engines[j].framework == fw && engines[j].name@ == name
}

/// The IBus engine list after registered IBus engines are folded in:
/// each such engine's name appended, in order, unless already listed.
pub open spec fn fold_ibus(list: Seq<Seq<char>>, engines: Seq<EngineFact>) -> Seq<Seq<char>>
    decreases engines.len(),
{
    if engines.len() == 0 {
        list
    } else {
        let acc = fold_ibus(list, engines.drop_last());
        let e = engines.last();
        if e.framework == ImFramework::Ibus && e.is_registered && !acc.contains(e.name@) {
            acc.push(e.name@)
        } else {
            acc
        }
    }
}

fn copy_opt(o: &Option<String>) -> (r: Option<String>)
    ensures
        r == *o,
{
    match o {
        Some(s) => Some(s.clone()),
        None => None,
    }
}

fn copy_engine(e: &EngineFact) -> (r: EngineFact)
    ensures
        r == *e,
{
    EngineFact {
        name: e.name.clone(),
        package: copy_opt(&e.package),
        version: copy_opt(&e.version),
        framework: e.framework,
        is_vietnamese: e.is_vietnamese,
        is_registered: e.is_registered,
    }
}

fn contains_name(v: &Vec<String>, name: &String) -> (b: bool)
    ensures
        b == string_views(v@).contains(name@),
{
    let mut i: usize = 0;
    while i < v.len()
        invariant
            i <= v.len(),
            forall|j: int| 0 <= j < i ==> v@[j]@ != name@,
        decreases v.len() - i,
    {
        if v[i] == *name {
            assert(string_views(v@)[i as int] == name@);
            return true;
        }
        i += 1;
    }
    proof {
        if string_views(v@).contains(name@) {
            let k = choose|k: int| 0 <= k < string_views(v@).len() && string_views(v@)[k] == name@;
            assert(v@[k]@ == name@);
        }
    }
    false
}

fn is_confirmed(
    ibus: &Option<IbusFacts>,
    fcitx5: &Option<Fcitx5Facts>,
    engines: &Vec<EngineFact>,
    fw: ImFramework,
    name: &String,
) -> (b: bool)
    ensures
        b == confirmed(*ibus, *fcitx5, engines@, fw, name@),
{
    if fw == ImFramework::Ibus {
        match ibus {
            Some(f) => {
                if contains_name(&f.registered_engines, name) {
                    return true;
                }
            },
            None => {},
        }
    }
    if fw == ImFramework::Fcitx5 {
        match fcitx5 {
            Some(f) => {
                if contains_name(&f.input_methods_configured, name) {
                    return true;
                }
            },
            None => {},
        }
    }
    let mut j: usize = 0;
    while j < engines.len()
        invariant
            j <= engines.len(),
            forall|k: int| 0 <= k < j ==> !((#[trigger] engines@[k]).is_registered && engines@[k].framework == fw && engines@[k].name@ == name@),
        decreases engines.len() - j,
    {
        if engines[j].is_registered && engines[j].framework == fw && engines[j].name == *name {
            return true;
        }
        j += 1;
    }
    false
}

/// Marks every engine row whose registration a detector confirmed, then
/// folds the registered IBus engines into IBus's engine list. Every
/// other field stays as it was.
pub fn reconcile_engine_registration(
    ibus: &mut Option<IbusFacts>,
    fcitx5: &Option<Fcitx5Facts>,
    engines: &mut Vec<EngineFact>,
)
    ensures
        final(engines)@.len() == old(engines)@.len(),
        forall|i: int| 0 <= i < old(engines)@.len() ==> {
            let o = #[trigger] old(engines)@[i];
            let n = final(engines)@[i];
            &&& n.name == o.name
            &&& n.package == o.package
            &&& n.version == o.version
            &&& n.framework == o.framework
            &&& n.is_vietnamese == o.is_vietnamese
            &&& n.is_registered == (o.is_registered || confirmed(*old(ibus), *fcitx5, old(engines)@, o.framework, o.name@))
        },
        match *old(ibus) {
            None => *final(ibus) is None,
            Some(f) => *final(ibus) matches Some(g) && {
                &&& string_views(g.registered_engines@) == fold_ibus(string_views(f.registered_engines@), final(engines)@)
                &&& g.version == f.version
                &&& g.daemon_running == f.daemon_running
                &&& g.daemon_pid == f.daemon_pid
                &&& g.config_dir == f.config_dir
            },
        },
{
    let ghost old_engines = engines@;
    let ghost old_ibus = *ibus;
    let n = engines.len();
    let mut flags: Vec<bool> = Vec::new();
    let mut i: usize = 0;
    while i < n
        invariant
            n == engines.len(),
            engines@ == old_engines,
            *ibus == old_ibus,
            i <= n,
            flags@.len() == i,
            forall|k: int| 0 <= k < i ==> flags@[k] == (old_engines[k].is_registered || confirmed(old_ibus, *fcitx5, old_engines, old_engines[k].framework, old_engines[k].name@)),
        decreases n - i,
    {
        let c = engines[i].is_registered || is_confirmed(ibus, fcitx5, engines, engines[i].framework, &engines[i].name);
        flags.push(c);
        i += 1;
    }
    let mut k: usize = 0;
    while k < n
        invariant
            n == engines.len(),
            old_engines.len() == n,
            flags@.len() == n,
            *ibus == old_ibus,
            k <= n,
            forall|j: int| 0 <= j < n ==> flags@[j] == (old_engines[j].is_registered || confirmed(old_ibus, *fcitx5, old_engines, old_engines[j].framework, old_engines[j].name@)),
            forall|j: int| 0 <= j < n ==> {
                let o = old_engines[j];
                let e = #[trigger] engines@[j];
                &&& e.name == o.name
                &&& e.package == o.package
                &&& e.version == o.version
                &&& e.framework == o.framework
                &&& e.is_vietnamese == o.is_vietnamese
                &&& e.is_registered == (if j < k { flags@[j] } else { o.is_registered })
            },
        decreases n - k,
    {
        let mut e = copy_engine(&engines[k]);
        e.is_registered = flags[k];
        engines.set(k, e);
        k += 1;
    }
    match ibus {
        Some(f) => {
            let ghost start = string_views(f.registered_engines@);
            let ghost of = old_ibus->Some_0;
            assert(*f == of);
            let mut j: usize = 0;
            assert(engines@.take(0) =~= Seq::<EngineFact>::empty());
            while j < n
                invariant
                    n == engines.len(),
                    j <= n,
                    start == string_views(of.registered_engines@),
                    f.version == of.version,
                    f.daemon_running == of.daemon_running,
                    f.daemon_pid == of.daemon_pid,
                    f.config_dir == of.config_dir,
                    string_views(f.registered_engines@) == fold_ibus(start, engines@.take(j as int)),
                decreases n - j,
            {
                assert(engines@.take(j + 1).drop_last() =~= engines@.take(j as int));
                assert(engines@.take(j + 1).last() == engines@[j as int]);
                if engines[j].framework == ImFramework::Ibus && engines[j].is_registered
                    && !contains_name(&f.registered_engines, &engines[j].name) {
                    let ghost before = string_views(f.registered_engines@);
                    f.registered_engines.push(engines[j].name.clone());
                    assert(string_views(f.registered_engines@) =~= before.push(engines@[j as int].name@));
                }
                j += 1;
            }
            assert(engines@.take(n as int) =~= engines@);
        },
        None => {},
    }
}

// ------------------------------------------------------------ recommendations

/// Strictly increasing: sorted with no repeats.
pub open spec fn strictly_sorted(s: Seq<Seq<char>>) -> bool {
    forall|i: int, j: int| 0 <= i < j < s.len() ==> seq_lt(#[trigger] s[i], #[trigger] s[j])
}

fn insert_unique_sorted(v: &mut Vec<Vec<char>>, x: Vec<char>)
    requires
        strictly_sorted(views(old(v)@)),
    ensures
        strictly_sorted(views(final(v)@)),
        forall|y: Seq<char>| views(final(v)@).contains(y) <==> (views(old(v)@).contains(y) || y == x@),
{
    let ghost o = views(v@);
    let ghost xs = x@;
    let mut k: usize = 0;
    while k < v.len() && lt_chars(&v[k], &x)
        invariant
            k <= v.len(),
            o == views(v@),
            xs == x@,
            forall|j: int| 0 <= j < k ==> seq_lt(#[trigger] o[j], xs),
        decreases v.len() - k,
    {
        assert(o[k as int] == v@[k as int]@);
        k += 1;
    }
    if k < v.len() {
        assert(o[k as int] == v@[k as int]@);
        if crate::text::seq_eq(&v[k], &x) {
            return;
        }
        proof {
            lemma_lt_total(o[k as int], xs);
        }
    }
    assert(k < o.len() ==> seq_lt(xs, o[k as int]));
    v.insert(k, x);
    let ghost n = views(v@);
    assert(n =~= o.insert(k as int, xs));
    assert forall|i: int, j: int| 0 <= i < j < n.len() implies seq_lt(#[trigger] n[i], #[trigger] n[j]) by {
        if j < k {
            assert(n[i] == o[i] && n[j] == o[j]);
        } else if j == k {
            assert(n[i] == o[i] && n[j] == xs);
        } else if i == k {
            assert(n[i] == xs && n[j] == o[j - 1]);
            if j - 1 > k {
                lemma_lt_transitive(xs, o[k as int], o[j - 1]);
            }
        } else if i < k {
            assert(n[i] == o[i] && n[j] == o[j - 1]);
            assert(seq_lt(o[i], o[j - 1]));
        } else {
            assert(n[i] == o[i - 1] && n[j] == o[j - 1]);
        }
    }
    assert forall|y: Seq<char>| n.contains(y) <==> (o.contains(y) || y == xs) by {
        if n.contains(y) {
            let t = choose|t: int| 0 <= t < n.len() && n[t] == y;
            if t < k {
                assert(o[t] == y);
            } else if t > k {
                assert(o[t - 1] == y);
            }
        }
        if o.contains(y) {
            let t = choose|t: int| 0 <= t < o.len() && o[t] == y;
            if t < k {
                assert(n[t] == y);
            } else {
                assert(n[t + 1] == y);
            }
        }
        if y == xs {
            assert(n[k as int] == y);
        }
    }
}

/// The recommendation ids the issues point to.
pub open spec fn issue_rec(i: IssueView, y: Seq<char>) -> bool {
    i.recommendation == Some(y)
}

/// The catalogue entries for the ids, in order, unknown ids dropped.
pub open spec fn lookups(ids: Seq<Seq<char>>) -> Seq<RecommendationView>
    decreases ids.len(),
{
    if ids.len() == 0 {
        seq![]
    } else {
        let r = lookups(ids.drop_last());
        match find_rec(ids.last(), 0) {
            Some(x) => r.push(x),
            None => r,
        }
    }
}

/// The recommendations a report lists: every id an issue points to, once,
/// in id order, looked up in the catalogue (ids it lacks are dropped).
pub fn populate_recommendations(issues: &[Issue]) -> (r: Vec<Recommendation>)
    ensures
        exists|ids: Seq<Seq<char>>| {
            &&& strictly_sorted(ids)
            &&& forall|y: Seq<char>| ids.contains(y) <==> exists|i: int| 0 <= i < issues@.len() && issue_rec(#[trigger] issues@[i]@, y)
            &&& rec_views(r@) == lookups(ids)
        },
{
    let mut ids: Vec<Vec<char>> = Vec::new();
    let mut i: usize = 0;
    while i < issues.len()
        invariant
            i <= issues.len(),
            strictly_sorted(views(ids@)),
            forall|y: Seq<char>| views(ids@).contains(y) <==> exists|k: int| 0 <= k < i && issue_rec(#[trigger] issues@[k]@, y),
        decreases issues.len() - i,
    {
        match &issues[i].recommendation {
            Some(id) => {
                let ghost before = views(ids@);
                insert_unique_sorted(&mut ids, chars_of(id.as_str()));
                assert forall|y: Seq<char>| views(ids@).contains(y) <==> exists|k: int| 0 <= k < i + 1 && issue_rec(#[trigger] issues@[k]@, y) by {
                    if y == id@ {
                        assert(issue_rec(issues@[i as int]@, y));
                    }
                    if exists|k: int| 0 <= k < i + 1 && issue_rec(#[trigger] issues@[k]@, y) {
                        let k = choose|k: int| 0 <= k < i + 1 && issue_rec(#[trigger] issues@[k]@, y);
                        if k < i {
                            assert(before.contains(y));
                        }
                    }
                }
            },
            None => {
                assert forall|y: Seq<char>| views(ids@).contains(y) <==> exists|k: int| 0 <= k < i + 1 && issue_rec(#[trigger] issues@[k]@, y) by {
                    if exists|k: int| 0 <= k < i + 1 && issue_rec(#[trigger] issues@[k]@, y) {
                        let k = choose|k: int| 0 <= k < i + 1 && issue_rec(#[trigger] issues@[k]@, y);
                        assert(k < i);
                    }
                }
            },
        }
        i += 1;
    }
    let ghost idv = views(ids@);
    let mut out: Vec<Recommendation> = Vec::new();
    let mut j: usize = 0;
    assert(idv.take(0) =~= Seq::<Seq<char>>::empty());
    assert(rec_views(out@) =~= Seq::<RecommendationView>::empty());
    while j < ids.len()
        invariant
            j <= ids.len(),
            idv == views(ids@),
            rec_views(out@) == lookups(idv.take(j as int)),
        decreases ids.len() - j,
    {
        assert(idv.take(j + 1).drop_last() =~= idv.take(j as int));
        assert(idv.take(j + 1).last() == ids@[j as int]@);
        let s = crate::text::string_of(&ids[j]);
        match lookup(s.as_str()) {
            Some(rec) => {
                let ghost before = rec_views(out@);
                let ghost rv = rec@;
                out.push(rec);
                assert(rec_views(out@) =~= before.push(rv));
            },
            None => {},
        }
        j += 1;
    }
    assert(idv.take(ids.len() as int) =~= idv);
    out
}


// ------------------------------------------------------------ applications

/// An application row as a mathematical value.
#[verifier::ext_equal]
pub struct AppView {
    pub app_id: Seq<char>,
    pub binary_path: Seq<char>,
    pub version: Option<Seq<char>>,
    pub kind: AppKind,
    pub electron_version: Option<Seq<char>>,
    pub uses_wayland: Option<bool>,
    pub notes: Seq<Seq<char>>,
}

pub open spec fn app_view(a: AppFacts) -> AppView {
    AppView {
        app_id: a.app_id@,
        binary_path: a.binary_path@,
        version: opt_view(a.version),
        kind: a.kind,
        electron_version: opt_view(a.electron_version),
        uses_wayland: a.uses_wayland,
        notes: string_views(a.detector_notes@),
    }
}

pub open spec fn app_views(v: Seq<AppFacts>) -> Seq<AppView> {
    Seq::new(v.len(), |i: int| app_view(v[i]))
}

/// A later row's kind replaces an earlier one only where it is more
/// specific: Electron, Chromium or AppImage over Native, and AppImage
/// over Electron.
pub open spec fn kind_upgrades(earlier: AppKind, later: AppKind) -> bool {
    ||| (earlier is Native && (later is Electron || later is Chromium || later is AppImage))
    ||| (earlier is Electron && later is AppImage)
}

/// Two rows for one application merged: each field keeps the earlier
/// row's value unless only the later one has it; notes are joined.
pub open spec fn merge_app(e: AppView, i: AppView) -> AppView {
    AppView {
        app_id: e.app_id,
        binary_path: if e.binary_path.len() == 0 && i.binary_path.len() > 0 { i.binary_path } else { e.binary_path },
        version: if e.version is None && i.version is Some { i.version } else { e.version },
        kind: if kind_upgrades(e.kind, i.kind) { i.kind } else { e.kind },
        electron_version: if e.electron_version is None && i.electron_version is Some { i.electron_version } else { e.electron_version },
        uses_wayland: if e.uses_wayland is None && i.uses_wayland is Some { i.uses_wayland } else { e.uses_wayland },
        notes: e.notes + i.notes,
    }
}

/// Index of the first row with this app id, or -1.
pub open spec fn find_app(m: Seq<AppView>, id: Seq<char>) -> int
    decreases m.len(),
{
    if m.len() == 0 {
        -1
    } else {
        let k = find_app(m.drop_last(), id);
        if k >= 0 {
            k
        } else if m.last().app_id == id {
            m.len() - 1
        } else {
            -1
        }
    }
}

/// The rows after merging, in input order: each row folds into the
/// first earlier row with its app id, or is appended.
pub open spec fn merge_apps(items: Seq<AppView>) -> Seq<AppView>
    decreases items.len(),
{
    if items.len() == 0 {
        seq![]
    } else {
        let m = merge_apps(items.drop_last());
        let it = items.last();
        let k = find_app(m, it.app_id);
        if k >= 0 {
            m.update(k, merge_app(m[k], it))
        } else {
            m.push(it)
        }
    }
}

pub open spec fn unique_app_ids(m: Seq<AppView>) -> bool {
    forall|a: int, b: int| 0 <= a < b < m.len() ==> m[a].app_id != m[b].app_id
}

proof fn lemma_find_app(m: Seq<AppView>, id: Seq<char>, j: int)
    requires
        0 <= j <= m.len(),
        forall|k: int| 0 <= k < j ==> (#[trigger] m[k]).app_id != id,
        j < m.len() ==> m[j].app_id == id,
    ensures
        find_app(m, id) == if j < m.len() { j } else { -1 },
    decreases m.len(),
{
    if m.len() > 0 {
        if j < m.len() {
            if j < m.len() - 1 {
                lemma_find_app(m.drop_last(), id, j);
            } else {
                lemma_find_app(m.drop_last(), id, m.len() - 1);
            }
        } else {
            lemma_find_app(m.drop_last(), id, m.len() - 1);
        }
    }
}

proof fn lemma_find_app_bounds(m: Seq<AppView>, id: Seq<char>)
    ensures
        -1 <= find_app(m, id) < m.len(),
        find_app(m, id) >= 0 ==> m[find_app(m, id)].app_id == id,
        find_app(m, id) < 0 ==> forall|k: int| 0 <= k < m.len() ==> (#[trigger] m[k]).app_id != id,
    decreases m.len(),
{
    if m.len() > 0 {
        lemma_find_app_bounds(m.drop_last(), id);
        assert forall|k: int| 0 <= k < m.len() - 1 implies #[trigger] m[k] == m.drop_last()[k] by {}
    }
}

/// Merging leaves no two rows with the same app id.
pub proof fn law_merged_app_ids_unique(items: Seq<AppView>)
    ensures
        unique_app_ids(merge_apps(items)),
    decreases items.len(),
{
    if items.len() > 0 {
        let m = merge_apps(items.drop_last());
        law_merged_app_ids_unique(items.drop_last());
        lemma_find_app_bounds(m, items.last().app_id);
    }
}

/// Collapses the rows that several detectors wrote for one application
/// into one, keeping input order: a field the earlier row lacks is taken
/// from the later one, a more specific kind wins, notes are joined.
pub fn reconcile_app_facts(apps: &mut Vec<AppFacts>)
    ensures
        app_views(final(apps)@) == merge_apps(app_views(old(apps)@)),
        unique_app_ids(app_views(final(apps)@)),
{
    let ghost orig = app_views(apps@);
    let mut incoming: Vec<AppFacts> = Vec::new();
    std::mem::swap(&mut incoming, apps);
    let ghost src = incoming@;
    assert(src.len() == incoming.len());
    let mut merged: Vec<AppFacts> = Vec::new();
    let mut i: usize = 0;
    assert(orig.take(0) =~= Seq::<AppView>::empty());
    assert(app_views(merged@) =~= Seq::<AppView>::empty());
    while incoming.len() > 0
        invariant
            orig == app_views(src),
            src.len() <= usize::MAX,
            i + incoming@.len() == src.len(),
            incoming@ == src.skip(i as int),
            app_views(merged@) == merge_apps(orig.take(i as int)),
        decreases incoming@.len(),
    {
        let item = incoming.remove(0);
        let ghost it = app_view(item);
        let ghost before = app_views(merged@);
        assert(it == orig[i as int]);
        assert(orig.take(i + 1).drop_last() =~= orig.take(i as int));
        assert(orig.take(i + 1).last() == it);
        let mut j: usize = 0;
        while j < merged.len()
            invariant
                j <= merged.len(),
                before == app_views(merged@),
                forall|k: int| 0 <= k < j ==> (#[trigger] merged@[k]).app_id@ != item.app_id@,
            ensures
                j <= merged.len(),
                forall|k: int| 0 <= k < j ==> (#[trigger] merged@[k]).app_id@ != item.app_id@,
                j < merged.len() ==> merged@[j as int].app_id@ == item.app_id@,
            decreases merged.len() - j,
        {
            if merged[j].app_id == item.app_id {
                break;
            }
            j += 1;
        }
        proof {
            assert forall|k: int| 0 <= k < j implies (#[trigger] before[k]).app_id != it.app_id by {
                assert(before[k] == app_view(merged@[k]));
            }
            if j < merged.len() {
                assert(before[j as int] == app_view(merged@[j as int]));
            }
            lemma_find_app(before, it.app_id, j as int);
        }
        let AppFacts { app_id, binary_path, version, kind, electron_version, uses_wayland, detector_notes } = item;
        if j < merged.len() {
            let e = merged.remove(j);
            let ghost ev = app_view(e);
            assert(ev == before[j as int]);
            let AppFacts {
                app_id: e_id,
                binary_path: e_path,
                version: e_version,
                kind: e_kind,
                electron_version: e_electron,
                uses_wayland: e_wayland,
                detector_notes: e_notes,
            } = e;
            let new_path = if e_path.as_str().unicode_len() == 0 && binary_path.as_str().unicode_len() > 0 {
                binary_path
            } else {
                e_path
            };
            let new_version = if e_version.is_none() && version.is_some() { version } else { e_version };
            let upgrade = match (&e_kind, &kind) {
                (AppKind::Native, AppKind::Electron) => true,
                (AppKind::Native, AppKind::Chromium) => true,
                (AppKind::Native, AppKind::AppImage) => true,
                (AppKind::Electron, AppKind::AppImage) => true,
                _ => false,
            };
            let new_kind = if upgrade { kind } else { e_kind };
            let new_electron = if e_electron.is_none() && electron_version.is_some() { electron_version } else { e_electron };
            let new_wayland = if e_wayland.is_none() && uses_wayland.is_some() { uses_wayland } else { e_wayland };
            let mut notes = e_notes;
            let mut extra = detector_notes;
            let ghost en = notes@;
            let ghost xn = extra@;
            notes.append(&mut extra);
            assert(string_views(notes@) =~= string_views(en) + string_views(xn));
            let merged_row = AppFacts {
                app_id: e_id,
                binary_path: new_path,
                version: new_version,
                kind: new_kind,
                electron_version: new_electron,
                uses_wayland: new_wayland,
                detector_notes: notes,
            };
            assert(app_view(merged_row) =~= merge_app(ev, it));
            merged.insert(j, merged_row);
            assert(app_views(merged@) =~= before.update(j as int, merge_app(before[j as int], it)));
        } else {
            let row = AppFacts { app_id, binary_path, version, kind, electron_version, uses_wayland, detector_notes };
            assert(app_view(row) == it);
            merged.push(row);
            assert(app_views(merged@) =~= before.push(it));
        }
        assert(src.skip(i as int).skip(1) =~= src.skip(i + 1));
        i += 1;
    }
    assert(orig.take(i as int) =~= orig);
    *apps = merged;
    proof {
        law_merged_app_ids_unique(orig);
    }
}


/// No name occurs twice.
pub open spec fn no_duplicates(list: Seq<Seq<char>>) -> bool {
    forall|i: int, j: int| 0 <= i < j < list.len() ==> list[i] != list[j]
}

/// Folding registered IBus engines into IBus's list keeps the list as it
/// was at its front, lists every registered IBus engine afterwards, and
/// adds no name twice.
pub proof fn law_fold_lists_registered_ibus_engines(list: Seq<Seq<char>>, engines: Seq<EngineFact>)
    ensures
        fold_ibus(list, engines).len() >= list.len(),
        fold_ibus(list, engines).take(list.len() as int) == list,
        forall|i: int| 0 <= i < engines.len() && (#[trigger] engines[i]).framework == ImFramework::Ibus && engines[i].is_registered
            ==> fold_ibus(list, engines).contains(engines[i].name@),
        no_duplicates(list) ==> no_duplicates(fold_ibus(list, engines)),
    decreases engines.len(),
{
    if engines.len() == 0 {
        assert(list.take(list.len() as int) =~= list);
    } else {
        let d = engines.drop_last();
        law_fold_lists_registered_ibus_engines(list, d);
        let acc = fold_ibus(list, d);
        let e = engines.last();
        let out = fold_ibus(list, engines);
        if e.framework == ImFramework::Ibus && e.is_registered && !acc.contains(e.name@) {
            assert(out == acc.push(e.name@));
            assert(out.take(list.len() as int) =~= acc.take(list.len() as int));
            assert(out[out.len() - 1] == e.name@);
            assert forall|i: int| 0 <= i < engines.len() && (#[trigger] engines[i]).framework == ImFramework::Ibus && engines[i].is_registered
                implies out.contains(engines[i].name@) by {
                if i < engines.len() - 1 {
                    assert(d[i] == engines[i]);
                    let k = choose|k: int| 0 <= k < acc.len() && acc[k] == engines[i].name@;
                    assert(out[k] == acc[k]);
                }
            }
            if no_duplicates(list) {
                assert forall|i: int, j: int| 0 <= i < j < out.len() implies out[i] != out[j] by {
                    if j == out.len() - 1 {
                        assert(out[i] == acc[i]);
                        if acc[i] == e.name@ {
                            assert(acc.contains(e.name@));
                        }
                    } else {
                        assert(out[i] == acc[i] && out[j] == acc[j]);
                    }
                }
            }
        } else {
            assert(out == acc);
            assert forall|i: int| 0 <= i < engines.len() && (#[trigger] engines[i]).framework == ImFramework::Ibus && engines[i].is_registered
                implies out.contains(engines[i].name@) by {
                if i < engines.len() - 1 {
                    assert(d[i] == engines[i]);
                }
            }
        }
    }
}


// ------------------------------------------------------------ partial facts

/// What one detector found: each field it could fill, and the apps and
/// engines it saw. The desktop and the environment facts, whose types
/// this library does not model, are carried by the caller.
#[derive(Debug)]
pub struct PartialFacts {
    pub distro: Option<crate::model::Distro>,
    pub session: Option<crate::model::SessionType>,
    pub kernel: Option<String>,
    pub shell: Option<String>,
    pub locale: Option<String>,
    pub ibus: Option<IbusFacts>,
    pub fcitx5: Option<Fcitx5Facts>,
    pub apps: Vec<AppFacts>,
    pub engines: Vec<EngineFact>,
}

/// A later value wins, but nothing never replaces something.
pub open spec fn later_wins<T>(cur: Option<T>, inc: Option<T>) -> Option<T> {
    match inc {
        Some(_) => inc,
        None => cur,
    }
}

impl PartialFacts {
    /// Nothing found.
    pub fn empty() -> (p: PartialFacts)
        ensures
            p.distro is None && p.session is None && p.kernel is None && p.shell is None,
            p.locale is None && p.ibus is None && p.fcitx5 is None,
            p.apps@.len() == 0 && p.engines@.len() == 0,
    {
        PartialFacts {
            distro: None,
            session: None,
            kernel: None,
            shell: None,
            locale: None,
            ibus: None,
            fcitx5: None,
            apps: Vec::new(),
            engines: Vec::new(),
        }
    }

    /// Folds another detector's findings in: the scalar fields (distro,
    /// session, kernel, shell, locale) are taken from `other` where it has
    /// them and kept otherwise; the IBus and Fcitx5 facts merge field by
    /// field; apps and engines are appended in order.
    pub fn merge_from(&mut self, other: PartialFacts)
        ensures
            final(self).distro == later_wins(old(self).distro, other.distro),
            final(self).session == later_wins(old(self).session, other.session),
            final(self).kernel == later_wins(old(self).kernel, other.kernel),
            final(self).shell == later_wins(old(self).shell, other.shell),
            final(self).locale == later_wins(old(self).locale, other.locale),
            final(self).ibus == match (old(self).ibus, other.ibus) {
                (c, None) => c,
                (None, Some(i)) => Some(i),
                (Some(c), Some(i)) => Some(crate::daemons::ibus_merged(c, i)),
            },
            final(self).fcitx5 == match (old(self).fcitx5, other.fcitx5) {
                (c, None) => c,
                (None, Some(i)) => Some(i),
                (Some(c), Some(i)) => Some(crate::daemons::fcitx5_merged(c, i)),
            },
            final(self).apps@ == old(self).apps@ + other.apps@,
            final(self).engines@ == old(self).engines@ + other.engines@,
    {
        let PartialFacts { distro, session, kernel, shell, locale, ibus, fcitx5, mut apps, mut engines } = other;
        if distro.is_some() {
            self.distro = distro;
        }
        if session.is_some() {
            self.session = session;
        }
        if kernel.is_some() {
            self.kernel = kernel;
        }
        if shell.is_some() {
            self.shell = shell;
        }
        if locale.is_some() {
            self.locale = locale;
        }
        crate::daemons::merge_ibus_facts(&mut self.ibus, ibus);
        crate::daemons::merge_fcitx5_facts(&mut self.fcitx5, fcitx5);
        self.apps.append(&mut apps);
        self.engines.append(&mut engines);
    }
}

/// Merging in a detector's findings never loses a value that was found:
/// a field set before stays set, and every app and engine seen before is
/// still there, in its place.
pub proof fn law_merge_keeps_found(before: PartialFacts, other: PartialFacts, after: PartialFacts)
    requires
        after.distro == later_wins(before.distro, other.distro),
        after.session == later_wins(before.session, other.session),
        after.kernel == later_wins(before.kernel, other.kernel),
        after.shell == later_wins(before.shell, other.shell),
        after.locale == later_wins(before.locale, other.locale),
        after.apps@ == before.apps@ + other.apps@,
        after.engines@ == before.engines@ + other.engines@,
    ensures
        before.distro is Some ==> after.distro is Some,
        before.session is Some ==> after.session is Some,
        before.kernel is Some ==> after.kernel is Some,
        before.shell is Some ==> after.shell is Some,
        before.locale is Some ==> after.locale is Some,
        forall|i: int| 0 <= i < before.apps@.len() ==> after.apps@[i] == before.apps@[i],
        forall|i: int| 0 <= i < before.engines@.len() ==> after.engines@[i] == before.engines@[i],
        after.apps@.len() == before.apps@.len() + other.apps@.len(),
        after.engines@.len() == before.engines@.len() + other.engines@.len(),
{
}

} // verus!
