//! The fifteen checkers: each one's rule from the facts it reads to the
//! issues it reports, and the order a report lists issues in.
use crate::managed::{lemma_lt_total, lemma_lt_transitive, lt_chars, seq_lt};
use crate::model::{ActiveFramework, ImFramework, SessionType};
use crate::reconcile::EngineFact;
use crate::text::{append_str, chars_of, contains_seq, decimal, lower_seq, push_decimal, string_of, string_views, to_lower};
use vstd::prelude::*;

verus! {

broadcast use vstd::seq_lib::group_to_multiset_ensures;

#[derive(Debug, Default, Clone, Copy)]
pub struct Vd001;

#[derive(Debug, Default, Clone, Copy)]
pub struct Vd002;

#[derive(Debug, Default, Clone, Copy)]
pub struct Vd003;

#[derive(Debug, Default, Clone, Copy)]
pub struct Vd004;

#[derive(Debug, Default, Clone, Copy)]
pub struct Vd005;

#[derive(Debug, Default, Clone, Copy)]
pub struct Vd006;

#[derive(Debug, Default, Clone, Copy)]
pub struct Vd007;

#[derive(Debug, Default, Clone, Copy)]
pub struct Vd008;

#[derive(Debug, Default, Clone, Copy)]
pub struct Vd009;

#[derive(Debug, Default, Clone, Copy)]
pub struct Vd010;

#[derive(Debug, Default, Clone, Copy)]
pub struct Vd011;

#[derive(Debug, Default, Clone, Copy)]
pub struct Vd012;

#[derive(Debug, Default, Clone, Copy)]
pub struct Vd013;

#[derive(Debug, Default, Clone, Copy)]
pub struct Vd014;

#[derive(Debug, Default, Clone, Copy)]
pub struct Vd015;


impl Vd001 {
    pub fn new() -> (c: Vd001) {
        Vd001
    }

    /// The issue id this checker reports under.
    pub fn id(&self) -> (s: &'static str)
        ensures
            s@ == "VD001"@,
    {
        "VD001"
    }
}
impl Vd002 {
    pub fn new() -> (c: Vd002) {
        Vd002
    }

    /// The issue id this checker reports under.
    pub fn id(&self) -> (s: &'static str)
        ensures
            s@ == "VD002"@,
    {
        "VD002"
    }
}
impl Vd003 {
    pub fn new() -> (c: Vd003) {
        Vd003
    }

    /// The issue id this checker reports under.
    pub fn id(&self) -> (s: &'static str)
        ensures
            s@ == "VD003"@,
    {
        "VD003"
    }
}
impl Vd004 {
    pub fn new() -> (c: Vd004) {
        Vd004
    }

    /// The issue id this checker reports under.
    pub fn id(&self) -> (s: &'static str)
        ensures
            s@ == "VD004"@,
    {
        "VD004"
    }
}
impl Vd005 {
    pub fn new() -> (c: Vd005) {
        Vd005
    }

    /// The issue id this checker reports under.
    pub fn id(&self) -> (s: &'static str)
        ensures
            s@ == "VD005"@,
    {
        "VD005"
    }
}
impl Vd006 {
    pub fn new() -> (c: Vd006) {
        Vd006
    }

    /// The issue id this checker reports under.
    pub fn id(&self) -> (s: &'static str)
        ensures
            s@ == "VD006"@,
    {
        "VD006"
    }
}
impl Vd007 {
    pub fn new() -> (c: Vd007) {
        Vd007
    }

    /// The issue id this checker reports under.
    pub fn id(&self) -> (s: &'static str)
        ensures
            s@ == "VD007"@,
    {
        "VD007"
    }
}
impl Vd008 {
    pub fn new() -> (c: Vd008) {
        Vd008
    }

    /// The issue id this checker reports under.
    pub fn id(&self) -> (s: &'static str)
        ensures
            s@ == "VD008"@,
    {
        "VD008"
    }
}
impl Vd009 {
    pub fn new() -> (c: Vd009) {
        Vd009
    }

    /// The issue id this checker reports under.
    pub fn id(&self) -> (s: &'static str)
        ensures
            s@ == "VD009"@,
    {
        "VD009"
    }
}
impl Vd010 {
    pub fn new() -> (c: Vd010) {
        Vd010
    }

    /// The issue id this checker reports under.
    pub fn id(&self) -> (s: &'static str)
        ensures
            s@ == "VD010"@,
    {
        "VD010"
    }
}
impl Vd011 {
    pub fn new() -> (c: Vd011) {
        Vd011
    }

    /// The issue id this checker reports under.
    pub fn id(&self) -> (s: &'static str)
        ensures
            s@ == "VD011"@,
    {
        "VD011"
    }
}
impl Vd012 {
    pub fn new() -> (c: Vd012) {
        Vd012
    }

    /// The issue id this checker reports under.
    pub fn id(&self) -> (s: &'static str)
        ensures
            s@ == "VD012"@,
    {
        "VD012"
    }
}
impl Vd013 {
    pub fn new() -> (c: Vd013) {
        Vd013
    }

    /// The issue id this checker reports under.
    pub fn id(&self) -> (s: &'static str)
        ensures
            s@ == "VD013"@,
    {
        "VD013"
    }
}
impl Vd014 {
    pub fn new() -> (c: Vd014) {
        Vd014
    }

    /// The issue id this checker reports under.
    pub fn id(&self) -> (s: &'static str)
        ensures
            s@ == "VD014"@,
    {
        "VD014"
    }
}
impl Vd015 {
    pub fn new() -> (c: Vd015) {
        Vd015
    }

    /// The issue id this checker reports under.
    pub fn id(&self) -> (s: &'static str)
        ensures
            s@ == "VD015"@,
    {
        "VD015"
    }
}

/// Whether a locale name says UTF-8 (`utf-8` or `utf8`, any ASCII case).
pub open spec fn utf8_locale(l: Seq<char>) -> bool {
    contains_seq(lower_seq(l), "utf-8"@) || contains_seq(lower_seq(l), "utf8"@)
}

pub fn is_utf8(locale: &str) -> (b: bool)
    ensures
        b == utf8_locale(locale@),
{
    let c = chars_of(locale);
    let lower = to_lower(&c);
    crate::text::contains_str(&lower, "utf-8") || crate::text::contains_str(&lower, "utf8")
}

/// Whether a note hints that an app was granted the input-method socket:
/// it mentions `ibus`, `fcitx`, `im-module` or `im_module`, any ASCII case.
pub open spec fn portal_note(n: Seq<char>) -> bool {
    let l = lower_seq(n);
    contains_seq(l, "ibus"@) || contains_seq(l, "fcitx"@) || contains_seq(l, "im-module"@)
        || contains_seq(l, "im_module"@)
}

/// The words that mark a note as an input-method portal hint.
pub open spec fn im_hint_words() -> Seq<Seq<char>> {
    seq!["ibus"@, "fcitx"@, "im-module"@, "im_module"@]
}

/// A note that mentions `ibus`, `fcitx`, `im-module` or `im_module` in any
/// ASCII case is a portal hint, and a note that mentions none of them is
/// not; so `has_im_portal_hint` holds exactly when some note mentions one,
/// and VD011 stays silent for a Flatpak app exactly when some note of it
/// does.
pub proof fn law_portal_hint_words(a: AppFacts, n: Seq<char>)
    ensures
        portal_note(n) <==> exists|w: int| 0 <= w < 4 && contains_seq(lower_seq(n), #[trigger] im_hint_words()[w]),
        a.kind is Flatpak ==> ((vd011_rule()(a) is None) <==> exists|i: int, w: int|
            0 <= i < a.detector_notes@.len() && 0 <= w < 4
                && contains_seq(lower_seq(#[trigger] a.detector_notes@[i]@), #[trigger] im_hint_words()[w])),
        !(a.kind is Flatpak) ==> vd011_rule()(a) is None,
{
    let ws = im_hint_words();
    assert(ws[0] == "ibus"@ && ws[1] == "fcitx"@ && ws[2] == "im-module"@ && ws[3] == "im_module"@);
    if portal_note(n) {
        let l = lower_seq(n);
        if contains_seq(l, "ibus"@) {
            assert(contains_seq(l, ws[0]));
        } else if contains_seq(l, "fcitx"@) {
            assert(contains_seq(l, ws[1]));
        } else if contains_seq(l, "im-module"@) {
            assert(contains_seq(l, ws[2]));
        } else {
            assert(contains_seq(l, ws[3]));
        }
    }
    if a.kind is Flatpak {
        if vd011_rule()(a) is None {
            let i = choose|i: int| 0 <= i < a.detector_notes@.len() && portal_note(#[trigger] a.detector_notes@[i]@);
            let l = lower_seq(a.detector_notes@[i]@);
            if contains_seq(l, "ibus"@) {
                assert(contains_seq(l, ws[0]));
            } else if contains_seq(l, "fcitx"@) {
                assert(contains_seq(l, ws[1]));
            } else if contains_seq(l, "im-module"@) {
                assert(contains_seq(l, ws[2]));
            } else {
                assert(contains_seq(l, ws[3]));
            }
        }
        if exists|i: int, w: int|
            0 <= i < a.detector_notes@.len() && 0 <= w < 4
                && contains_seq(lower_seq(#[trigger] a.detector_notes@[i]@), #[trigger] im_hint_words()[w]) {
            let (i, w) = choose|i: int, w: int|
                0 <= i < a.detector_notes@.len() && 0 <= w < 4
                    && contains_seq(lower_seq(#[trigger] a.detector_notes@[i]@), #[trigger] im_hint_words()[w]);
            assert(portal_note(a.detector_notes@[i]@));
        }
    }
}

pub fn has_im_portal_hint(notes: &[String]) -> (b: bool)
    ensures
        b == exists|i: int| 0 <= i < notes@.len() && portal_note(#[trigger] notes@[i]@),
{
    let mut i: usize = 0;
    while i < notes.len()
        invariant
            i <= notes.len(),
            forall|j: int| 0 <= j < i ==> !portal_note(#[trigger] notes@[j]@),
        decreases notes.len() - i,
    {
        let c = chars_of(notes[i].as_str());
        let l = to_lower(&c);
        if crate::text::contains_str(&l, "ibus") || crate::text::contains_str(&l, "fcitx")
            || crate::text::contains_str(&l, "im-module") || crate::text::contains_str(&l, "im_module") {
            assert(portal_note(notes@[i as int]@));
            return true;
        }
        assert(!portal_note(notes@[i as int]@));
        i += 1;
    }
    false
}

// ------------------------------------------------------------ issues

/// How bad an issue is.
#[derive(Debug, Clone, Copy, PartialEq, Eq, Structural)]
pub enum Severity {
    Info,
    Warn,
    Error,
    Critical,
}

/// One finding of a checker.
#[derive(Debug, Clone)]
pub struct Issue {
    pub id: String,
    pub severity: Severity,
    pub title: String,
    pub detail: String,
    pub facts_evidence: Vec<String>,
    pub recommendation: Option<String>,
}

/// An issue as a mathematical value.
#[verifier::ext_equal]
pub struct IssueView {
    pub id: Seq<char>,
    pub severity: Severity,
    pub title: Seq<char>,
    pub detail: Seq<char>,
    pub facts_evidence: Seq<Seq<char>>,
    pub recommendation: Option<Seq<char>>,
}

impl View for Issue {
    type V = IssueView;

    open spec fn view(&self) -> IssueView {
        IssueView {
            id: self.id@,
            severity: self.severity,
            title: self.title@,
            detail: self.detail@,
            facts_evidence: string_views(self.facts_evidence@),
            recommendation: match self.recommendation {
                Some(r) => Some(r@),
                None => None,
            },
        }
    }
}

pub open spec fn issue_views(v: Seq<Issue>) -> Seq<IssueView> {
    Seq::new(v.len(), |i: int| v[i]@)
}

fn issue(
    id: &str,
    severity: Severity,
    title: String,
    detail: String,
    facts_evidence: Vec<String>,
    recommendation: Option<&str>,
) -> (i: Issue)
    ensures
        i@ == (IssueView {
            id: id@,
            severity,
            title: title@,
            detail: detail@,
            facts_evidence: string_views(facts_evidence@),
            recommendation: match recommendation {
                Some(r) => Some(r@),
                None => None,
            },
        }),
{
    Issue {
        id: id.to_owned(),
        severity,
        title,
        detail,
        facts_evidence,
        recommendation: match recommendation {
            Some(r) => Some(r.to_owned()),
            None => None,
        },
    }
}

fn cat2(a: &str, b: &str) -> (s: String)
    ensures
        s@ == a@ + b@,
{
    let mut v = chars_of(a);
    append_str(&mut v, b);
    string_of(&v)
}

fn cat3(a: &str, b: &str, c: &str) -> (s: String)
    ensures
        s@ == a@ + b@ + c@,
{
    let mut v = chars_of(a);
    append_str(&mut v, b);
    append_str(&mut v, c);
    string_of(&v)
}

fn one(a: String) -> (v: Vec<String>)
    ensures
        string_views(v@) == seq![a@],
{
    let v = vec![a];
    assert(string_views(v@) =~= seq![v@[0]@]);
    v
}

fn two(a: String, b: String) -> (v: Vec<String>)
    ensures
        string_views(v@) == seq![a@, b@],
{
    let v = vec![a, b];
    assert(string_views(v@) =~= seq![v@[0]@, v@[1]@]);
    v
}

/// One of the fifteen checkers.
#[derive(Debug, Clone, Copy)]
pub enum AnyChecker {
    Vd001(Vd001),
    Vd002(Vd002),
    Vd003(Vd003),
    Vd004(Vd004),
    Vd005(Vd005),
    Vd006(Vd006),
    Vd007(Vd007),
    Vd008(Vd008),
    Vd009(Vd009),
    Vd010(Vd010),
    Vd011(Vd011),
    Vd012(Vd012),
    Vd013(Vd013),
    Vd014(Vd014),
    Vd015(Vd015),
}

pub open spec fn checker_id(c: AnyChecker) -> Seq<char> {
    match c {
        AnyChecker::Vd001(_) => "VD001"@,
        AnyChecker::Vd002(_) => "VD002"@,
        AnyChecker::Vd003(_) => "VD003"@,
        AnyChecker::Vd004(_) => "VD004"@,
        AnyChecker::Vd005(_) => "VD005"@,
        AnyChecker::Vd006(_) => "VD006"@,
        AnyChecker::Vd007(_) => "VD007"@,
        AnyChecker::Vd008(_) => "VD008"@,
        AnyChecker::Vd009(_) => "VD009"@,
        AnyChecker::Vd010(_) => "VD010"@,
        AnyChecker::Vd011(_) => "VD011"@,
        AnyChecker::Vd012(_) => "VD012"@,
        AnyChecker::Vd013(_) => "VD013"@,
        AnyChecker::Vd014(_) => "VD014"@,
        AnyChecker::Vd015(_) => "VD015"@,
    }
}

/// The checkers' ids, in the order the doctor registers them.
pub open spec fn checker_ids() -> Seq<Seq<char>> {
    seq!["VD001"@, "VD002"@, "VD003"@, "VD004"@, "VD005"@, "VD006"@, "VD007"@, "VD008"@, "VD009"@, "VD010"@, "VD011"@, "VD012"@, "VD013"@, "VD014"@, "VD015"@]
}

impl AnyChecker {
    /// The issue id this checker reports under.
    pub fn id(&self) -> (s: &'static str)
        ensures
            s@ == checker_id(*self),
    {
        match self {
            AnyChecker::Vd001(c) => c.id(),
            AnyChecker::Vd002(c) => c.id(),
            AnyChecker::Vd003(c) => c.id(),
            AnyChecker::Vd004(c) => c.id(),
            AnyChecker::Vd005(c) => c.id(),
            AnyChecker::Vd006(c) => c.id(),
            AnyChecker::Vd007(c) => c.id(),
            AnyChecker::Vd008(c) => c.id(),
            AnyChecker::Vd009(c) => c.id(),
            AnyChecker::Vd010(c) => c.id(),
            AnyChecker::Vd011(c) => c.id(),
            AnyChecker::Vd012(c) => c.id(),
            AnyChecker::Vd013(c) => c.id(),
            AnyChecker::Vd014(c) => c.id(),
            AnyChecker::Vd015(c) => c.id(),
        }
    }
}

/// Every checker, `VD001` to `VD015` in order.
pub fn list_all() -> (v: Vec<AnyChecker>)
    ensures
        v@.len() == 15,
        forall|i: int| 0 <= i < 15 ==> checker_id(#[trigger] v@[i]) == checker_ids()[i],
{
    let v = vec![AnyChecker::Vd001(Vd001), AnyChecker::Vd002(Vd002), AnyChecker::Vd003(Vd003), AnyChecker::Vd004(Vd004), AnyChecker::Vd005(Vd005), AnyChecker::Vd006(Vd006), AnyChecker::Vd007(Vd007), AnyChecker::Vd008(Vd008), AnyChecker::Vd009(Vd009), AnyChecker::Vd010(Vd010), AnyChecker::Vd011(Vd011), AnyChecker::Vd012(Vd012), AnyChecker::Vd013(Vd013), AnyChecker::Vd014(Vd014), AnyChecker::Vd015(Vd015)];
    assert forall|i: int| 0 <= i < 15 implies checker_id(#[trigger] v@[i]) == checker_ids()[i] by {}
    v
}

// ------------------------------------------------------------ daemons, session, env

/// `running` and, where known, ` (pid N)`.
pub open spec fn running_text(name: Seq<char>, pid: Option<u32>) -> Seq<char> {
    name + ": running"@ + match pid {
        Some(p) => " (pid "@ + decimal(p as nat) + ")"@,
        None => seq![],
    }
}

fn running_line(name: &str, pid: Option<u32>) -> (s: String)
    ensures
        s@ == running_text(name@, pid),
{
    let mut v = chars_of(name);
    append_str(&mut v, ": running");
    match pid {
        Some(p) => {
            append_str(&mut v, " (pid ");
            push_decimal(&mut v, p as usize);
            append_str(&mut v, ")");
        },
        None => {},
    }
    string_of(&v)
}

pub open spec fn vd002_text() -> Seq<char> {
    "Two IM daemons are active at once. Applications will pick whichever framework wins the GTK/Qt module lookup first, giving inconsistent behaviour across apps. Pick one framework and stop the other."@
}

/// What VD002 reports: both daemons running. `ibus` and `fcitx5` are the
/// daemons' facts where the detectors produced any (their pid, if
/// known); each present one adds an evidence line.
pub open spec fn vd002_spec(active: ActiveFramework, ibus: Option<Option<u32>>, fcitx5: Option<Option<u32>>) -> Seq<IssueView> {
    if active != ActiveFramework::Conflict {
        seq![]
    } else {
        seq![IssueView {
            id: "VD002"@,
            severity: Severity::Error,
            title: "Both IBus and Fcitx5 are running"@,
            detail: vd002_text(),
            facts_evidence: (match ibus {
                Some(p) => seq![running_text("ibus-daemon"@, p)],
                None => seq![],
            }) + (match fcitx5 {
                Some(p) => seq![running_text("fcitx5"@, p)],
                None => seq![],
            }),
            recommendation: Some("VR002"@),
        }]
    }
}

impl Vd002 {
    /// Fires when both daemons are running.
    pub fn check_daemons(&self, active: ActiveFramework, ibus: Option<Option<u32>>, fcitx5: Option<Option<u32>>) -> (r: Vec<Issue>)
        ensures
            issue_views(r@) == vd002_spec(active, ibus, fcitx5),
    {
        if active != ActiveFramework::Conflict {
            let r: Vec<Issue> = Vec::new();
            assert(issue_views(r@) =~= Seq::<IssueView>::empty());
            return r;
        }
        let mut evidence: Vec<String> = Vec::new();
        let ghost e0 = string_views(evidence@);
        match ibus {
            Some(p) => {
                evidence.push(running_line("ibus-daemon", p));
            },
            None => {},
        }
        let ghost e1 = string_views(evidence@);
        assert(e1 =~= e0 + (match ibus {
            Some(p) => seq![running_text("ibus-daemon"@, p)],
            None => seq![],
        }));
        match fcitx5 {
            Some(p) => {
                evidence.push(running_line("fcitx5", p));
            },
            None => {},
        }
        assert(string_views(evidence@) =~= e1 + (match fcitx5 {
            Some(p) => seq![running_text("fcitx5"@, p)],
            None => seq![],
        }));
        let i = issue(
            "VD002",
            Severity::Error,
            "Both IBus and Fcitx5 are running".to_owned(),
            "Two IM daemons are active at once. Applications will pick whichever framework wins the GTK/Qt module lookup first, giving inconsistent behaviour across apps. Pick one framework and stop the other.".to_owned(),
            evidence,
            Some("VR002"),
        );
        let r = vec![i];
        assert(issue_views(r@) =~= vd002_spec(active, ibus, fcitx5));
        r
    }
}

/// What VD006 reports: IBus under Wayland.
pub open spec fn vd006_spec(session: Option<SessionType>, active: ActiveFramework) -> Seq<IssueView> {
    if session == Some(SessionType::Wayland) && active == ActiveFramework::Ibus {
        seq![IssueView {
            id: "VD006"@,
            severity: Severity::Warn,
            title: "IBus on Wayland — Fcitx5 recommended"@,
            detail: "You're running IBus under a Wayland session. IBus has known text-insertion bugs on several Wayland desktops. Fcitx5 with the `wayland-im` addon is the recommended path for Vietnamese input on Wayland today."@,
            facts_evidence: seq!["session: wayland"@, "active: ibus"@],
            recommendation: Some("VR006"@),
        }]
    } else {
        seq![]
    }
}

impl Vd006 {
    /// Fires for IBus on a Wayland session.
    pub fn check_session(&self, session: Option<SessionType>, active: ActiveFramework) -> (r: Vec<Issue>)
        ensures
            issue_views(r@) == vd006_spec(session, active),
    {
        let mut r: Vec<Issue> = Vec::new();
        if session == Some(SessionType::Wayland) && active == ActiveFramework::Ibus {
            r.push(issue(
                "VD006",
                Severity::Warn,
                "IBus on Wayland — Fcitx5 recommended".to_owned(),
                "You're running IBus under a Wayland session. IBus has known text-insertion bugs on several Wayland desktops. Fcitx5 with the `wayland-im` addon is the recommended path for Vietnamese input on Wayland today.".to_owned(),
                two("session: wayland".to_owned(), "active: ibus".to_owned()),
                Some("VR006"),
            ));
        }
        assert(issue_views(r@) =~= vd006_spec(session, active));
        r
    }
}

/// What VD012 reports: the legacy `INPUT_METHOD` unset.
pub open spec fn vd012_spec(input_method_set: bool) -> Seq<IssueView> {
    if input_method_set {
        seq![]
    } else {
        seq![IssueView {
            id: "VD012"@,
            severity: Severity::Info,
            title: "INPUT_METHOD is not set"@,
            detail: "The legacy `INPUT_METHOD` variable is unset. Most modern apps use GTK_IM_MODULE / QT_IM_MODULE instead and don't need it — this is flagged as Info so you can tell it apart from an unset GTK/QT var, which would be Error territory."@,
            facts_evidence: seq!["INPUT_METHOD: unset"@],
            recommendation: None,
        }]
    }
}

impl Vd012 {
    /// Fires (as Info) when `INPUT_METHOD` is unset.
    pub fn check_input_method(&self, input_method: Option<&str>) -> (r: Vec<Issue>)
        ensures
            issue_views(r@) == vd012_spec(input_method is Some),
    {
        let mut r: Vec<Issue> = Vec::new();
        if input_method.is_none() {
            r.push(issue(
                "VD012",
                Severity::Info,
                "INPUT_METHOD is not set".to_owned(),
                "The legacy `INPUT_METHOD` variable is unset. Most modern apps use GTK_IM_MODULE / QT_IM_MODULE instead and don't need it — this is flagged as Info so you can tell it apart from an unset GTK/QT var, which would be Error territory.".to_owned(),
                one("INPUT_METHOD: unset".to_owned()),
                None,
            ));
        }
        assert(issue_views(r@) =~= vd012_spec(input_method is Some));
        r
    }
}

pub open spec fn vd014_issue(locale: Seq<char>, why: Seq<char>) -> IssueView {
    IssueView {
        id: "VD014"@,
        severity: Severity::Warn,
        title: "Active locale is not UTF-8"@,
        detail: "Vietnamese engines emit UTF-8 commit strings; a non-UTF-8 locale (e.g. `C`, `POSIX`, or an ISO-8859 variant) mangles the output at the libc boundary. Set LANG to a `*.UTF-8` variant in `/etc/locale.conf` or your shell profile."@,
        facts_evidence: seq!["locale: "@ + locale, why],
        recommendation: Some("VR014"@),
    }
}

/// What VD014 reports: no locale at all, or one that is not UTF-8.
pub open spec fn vd014_spec(locale: Option<Seq<char>>) -> Seq<IssueView> {
    match locale {
        None => seq![vd014_issue("(unset)"@, "no LC_ALL / LC_CTYPE / LANG set"@)],
        Some(l) => if utf8_locale(l) {
            seq![]
        } else {
            seq![vd014_issue(l, "effective locale is not a UTF-8 one"@)]
        },
    }
}

fn emit_issue(locale: &str, why: &str) -> (i: Issue)
    ensures
        i@ == vd014_issue(locale@, why@),
{
    issue(
        "VD014",
        Severity::Warn,
        "Active locale is not UTF-8".to_owned(),
        "Vietnamese engines emit UTF-8 commit strings; a non-UTF-8 locale (e.g. `C`, `POSIX`, or an ISO-8859 variant) mangles the output at the libc boundary. Set LANG to a `*.UTF-8` variant in `/etc/locale.conf` or your shell profile.".to_owned(),
        two(cat2("locale: ", locale), why.to_owned()),
        Some("VR014"),
    )
}

impl Vd014 {
    /// Fires when the effective locale is unset or not UTF-8.
    pub fn check_locale(&self, locale: Option<&str>) -> (r: Vec<Issue>)
        ensures
            issue_views(r@) == vd014_spec(
                match locale {
                    Some(l) => Some(l@),
                    None => None,
                },
            ),
    {
        let r = match locale {
            None => vec![emit_issue("(unset)", "no LC_ALL / LC_CTYPE / LANG set")],
            Some(l) => if is_utf8(l) {
                Vec::new()
            } else {
                vec![emit_issue(l, "effective locale is not a UTF-8 one")]
            },
        };
        assert(issue_views(r@) =~= vd014_spec(
            match locale {
                Some(l) => Some(l@),
                None => None,
            },
        ));
        r
    }
}

/// What VD015 reports: none of the engines seen is Vietnamese.
pub open spec fn vd015_spec(vietnamese: Seq<bool>) -> Seq<IssueView> {
    if exists|i: int| 0 <= i < vietnamese.len() && #[trigger] vietnamese[i] {
        seq![]
    } else {
        seq![IssueView {
            id: "VD015"@,
            severity: Severity::Info,
            title: "No Vietnamese input-method engine is installed"@,
            detail: "None of the detected IM engines are Vietnamese. If you want Vietnamese input, install one: `ibus-bamboo`, `ibus-unikey`, or `fcitx5-bamboo` depending on your framework. This is flagged as Info in case you're running Doctor for a different language's setup."@,
            facts_evidence: seq!["engines observed: "@ + decimal(vietnamese.len())],
            recommendation: None,
        }]
    }
}

impl Vd015 {
    /// Fires (as Info) when no observed engine is Vietnamese;
    /// `vietnamese` says for each engine whether it is.
    pub fn check_engines(&self, vietnamese: &[bool]) -> (r: Vec<Issue>)
        ensures
            issue_views(r@) == vd015_spec(vietnamese@),
    {
        let mut i: usize = 0;
        while i < vietnamese.len()
            invariant
                i <= vietnamese.len(),
                forall|j: int| 0 <= j < i ==> !vietnamese@[j],
            decreases vietnamese.len() - i,
        {
            if vietnamese[i] {
                let r: Vec<Issue> = Vec::new();
                assert(issue_views(r@) =~= vd015_spec(vietnamese@));
                return r;
            }
            i += 1;
        }
        let mut v = chars_of("engines observed: ");
        push_decimal(&mut v, vietnamese.len());
        let r = vec![issue(
            "VD015",
            Severity::Info,
            "No Vietnamese input-method engine is installed".to_owned(),
            "None of the detected IM engines are Vietnamese. If you want Vietnamese input, install one: `ibus-bamboo`, `ibus-unikey`, or `fcitx5-bamboo` depending on your framework. This is flagged as Info in case you're running Doctor for a different language's setup.".to_owned(),
            one(string_of(&v)),
            None,
        )];
        assert(issue_views(r@) =~= vd015_spec(vietnamese@));
        r
    }
}

// ------------------------------------------------------------ frameworks and engines

/// The name the report gives a framework.
pub open spec fn framework_display(f: ImFramework) -> Seq<char> {
    match f {
        ImFramework::NoFramework => "none"@,
        ImFramework::Ibus => "IBus"@,
        ImFramework::Fcitx5 => "Fcitx5"@,
    }
}

fn framework_display_exec(f: ImFramework) -> (s: &'static str)
    ensures
        s@ == framework_display(f),
{
    match f {
        ImFramework::NoFramework => "none",
        ImFramework::Ibus => "IBus",
        ImFramework::Fcitx5 => "Fcitx5",
    }
}

/// The index of the first Vietnamese engine, or -1.
pub open spec fn first_vietnamese(engines: Seq<EngineFact>) -> int
    decreases engines.len(),
{
    if engines.len() == 0 {
        -1
    } else {
        let k = first_vietnamese(engines.drop_last());
        if k >= 0 {
            k
        } else if engines.last().is_vietnamese {
            engines.len() - 1
        } else {
            -1
        }
    }
}

proof fn lemma_first_vietnamese(engines: Seq<EngineFact>, k: int)
    requires
        0 <= k <= engines.len(),
        forall|j: int| 0 <= j < k ==> !(#[trigger] engines[j]).is_vietnamese,
        k < engines.len() ==> engines[k].is_vietnamese,
    ensures
        first_vietnamese(engines) == if k < engines.len() { k } else { -1 },
    decreases engines.len(),
{
    if engines.len() > 0 {
        let d = engines.drop_last();
        if k < engines.len() - 1 {
            assert(d[k] == engines[k]);
            lemma_first_vietnamese(d, k);
        } else {
            lemma_first_vietnamese(d, d.len() as int);
        }
    }
}

/// What VD001 reports: no daemon is running but a Vietnamese engine is
/// installed; the evidence names the first such engine.
pub open spec fn vd001_spec(active: ActiveFramework, engines: Seq<EngineFact>) -> Seq<IssueView> {
    let k = first_vietnamese(engines);
    if active != ActiveFramework::NoFramework || k < 0 {
        seq![]
    } else {
        let e = engines[k];
        seq![IssueView {
            id: "VD001"@,
            severity: Severity::Critical,
            title: "No input-method daemon running"@,
            detail: "A Vietnamese engine ("@ + e.name@ + ") is installed but neither ibus-daemon nor fcitx5 is running. Vietnamese input will not work until one of them is started."@,
            facts_evidence: seq![
                "ibus-daemon: not running"@,
                "fcitx5: not running"@,
                "engine: "@ + e.name@ + " ("@ + framework_display(e.framework) + ")"@,
            ],
            recommendation: Some("VR001"@),
        }]
    }
}

impl Vd001 {
    /// Fires when no input-method daemon runs although a Vietnamese
    /// engine is installed.
    pub fn check_engines(&self, active: ActiveFramework, engines: &Vec<EngineFact>) -> (r: Vec<Issue>)
        ensures
            issue_views(r@) == vd001_spec(active, engines@),
    {
        let empty: Vec<Issue> = Vec::new();
        assert(issue_views(empty@) =~= Seq::<IssueView>::empty());
        if active != ActiveFramework::NoFramework {
            return empty;
        }
        let mut k: usize = 0;
        while k < engines.len() && !engines[k].is_vietnamese
            invariant
                k <= engines.len(),
                forall|j: int| 0 <= j < k ==> !(#[trigger] engines@[j]).is_vietnamese,
            decreases engines.len() - k,
        {
            k += 1;
        }
        proof {
            lemma_first_vietnamese(engines@, k as int);
        }
        if k == engines.len() {
            return empty;
        }
        let e = &engines[k];
        let mut detail = chars_of("A Vietnamese engine (");
        append_str(&mut detail, e.name.as_str());
        append_str(&mut detail, ") is installed but neither ibus-daemon nor fcitx5 is running. Vietnamese input will not work until one of them is started.");
        let mut ev = chars_of("engine: ");
        append_str(&mut ev, e.name.as_str());
        append_str(&mut ev, " (");
        append_str(&mut ev, framework_display_exec(e.framework));
        append_str(&mut ev, ")");
        let evidence = vec!["ibus-daemon: not running".to_owned(), "fcitx5: not running".to_owned(), string_of(&ev)];
        assert(string_views(evidence@) =~= seq![
            "ibus-daemon: not running"@,
            "fcitx5: not running"@,
            "engine: "@ + e.name@ + " ("@ + framework_display(e.framework) + ")"@,
        ]);
        let iss = issue("VD001", Severity::Critical, "No input-method daemon running".to_owned(), string_of(&detail), evidence, Some("VR001"));
        assert(iss@ =~~= vd001_spec(active, engines@)[0]);
        let r = vec![iss];
        assert(issue_views(r@) =~= vd001_spec(active, engines@));
        r
    }
}

/// The issue VD005 raises for one engine: a Vietnamese engine that a
/// package installed but the framework does not list.
pub open spec fn vd005_rule(e: EngineFact) -> Option<IssueView> {
    match e.package {
        Some(pkg) => if e.is_vietnamese && !e.is_registered {
            let fw = framework_display(e.framework);
            Some(IssueView {
                id: "VD005"@,
                severity: Severity::Warn,
                title: e.name@ + " is installed but not registered in "@ + fw,
                detail: "The "@ + pkg@ + " package ships the `"@ + e.name@ + "` engine but "@ + fw
                    + " hasn't been told to use it. Open the "@ + fw + " config tool and add the engine to your input-method list."@,
                facts_evidence: seq![e.name@ + " ("@ + pkg@ + "): installed but not registered in "@ + fw],
                recommendation: Some("VR005"@),
            })
        } else {
            None
        },
        None => None,
    }
}

/// VD005's issues, one per such engine, in engine order.
pub open spec fn vd005_spec(engines: Seq<EngineFact>) -> Seq<IssueView>
    decreases engines.len(),
{
    if engines.len() == 0 {
        seq![]
    } else {
        let r = vd005_spec(engines.drop_last());
        match vd005_rule(engines.last()) {
            Some(i) => r.push(i),
            None => r,
        }
    }
}

impl Vd005 {
    /// One issue per Vietnamese engine that a package installed but its
    /// framework has not registered.
    pub fn check_engines(&self, engines: &Vec<EngineFact>) -> (r: Vec<Issue>)
        ensures
            issue_views(r@) == vd005_spec(engines@),
    {
        let mut out: Vec<Issue> = Vec::new();
        let mut i: usize = 0;
        assert(engines@.take(0) =~= Seq::<EngineFact>::empty());
        assert(issue_views(out@) =~= Seq::<IssueView>::empty());
        while i < engines.len()
            invariant
                i <= engines.len(),
                issue_views(out@) == vd005_spec(engines@.take(i as int)),
            decreases engines.len() - i,
        {
            assert(engines@.take(i + 1).drop_last() =~= engines@.take(i as int));
            assert(engines@.take(i + 1).last() == engines@[i as int]);
            let e = &engines[i];
            match &e.package {
                Some(pkg) => {
                    if e.is_vietnamese && !e.is_registered {
                        let fw = framework_display_exec(e.framework);
                        let mut title = chars_of(e.name.as_str());
                        append_str(&mut title, " is installed but not registered in ");
                        append_str(&mut title, fw);
                        let mut detail = chars_of("The ");
                        append_str(&mut detail, pkg.as_str());
                        append_str(&mut detail, " package ships the `");
                        append_str(&mut detail, e.name.as_str());
                        append_str(&mut detail, "` engine but ");
                        append_str(&mut detail, fw);
                        append_str(&mut detail, " hasn't been told to use it. Open the ");
                        append_str(&mut detail, fw);
                        append_str(&mut detail, " config tool and add the engine to your input-method list.");
                        let mut ev = chars_of(e.name.as_str());
                        append_str(&mut ev, " (");
                        append_str(&mut ev, pkg.as_str());
                        append_str(&mut ev, "): installed but not registered in ");
                        append_str(&mut ev, fw);
                        let evidence = vec![string_of(&ev)];
                        assert(string_views(evidence@) =~= vd005_rule(*e)->Some_0.facts_evidence);
                        let iss = issue("VD005", Severity::Warn, string_of(&title), string_of(&detail), evidence, Some("VR005"));
                        assert(iss@ =~~= vd005_rule(*e)->Some_0);
                        let ghost before = issue_views(out@);
                        out.push(iss);
                        assert(issue_views(out@) =~= before.push(iss@));
                    }
                },
                None => {},
            }
            i += 1;
        }
        assert(engines@.take(engines.len() as int) =~= engines@);
        out
    }
}

/// What VD004 reports: IBus or Fcitx5 is active but `SDL_IM_MODULE` is
/// unset.
pub open spec fn vd004_spec(active: ActiveFramework, sdl_im_module_set: bool) -> Seq<IssueView> {
    let single = match active {
        ActiveFramework::Ibus => Some((ImFramework::Ibus, "ibus"@)),
        ActiveFramework::Fcitx5 => Some((ImFramework::Fcitx5, "fcitx"@)),
        _ => None,
    };
    match single {
        Some((f, value)) => if sdl_im_module_set {
            seq![]
        } else {
            seq![IssueView {
                id: "VD004"@,
                severity: Severity::Warn,
                title: "SDL_IM_MODULE is unset"@,
                detail: "SDL2 apps (games, emulators, Steam overlay) need SDL_IM_MODULE set to `"@ + value
                    + "` to route Vietnamese input through "@ + framework_display(f) + ". Without it those apps see raw keycodes."@,
                facts_evidence: seq!["SDL_IM_MODULE: unset"@, "active: "@ + framework_display(f)],
                recommendation: Some("VR004"@),
            }]
        },
        None => seq![],
    }
}

impl Vd004 {
    /// Fires when IBus or Fcitx5 is active and `SDL_IM_MODULE` is unset.
    pub fn check_sdl(&self, active: ActiveFramework, sdl_im_module_set: bool) -> (r: Vec<Issue>)
        ensures
            issue_views(r@) == vd004_spec(active, sdl_im_module_set),
    {
        let empty: Vec<Issue> = Vec::new();
        assert(issue_views(empty@) =~= Seq::<IssueView>::empty());
        let (f, value): (ImFramework, &str) = match active {
            ActiveFramework::Ibus => (ImFramework::Ibus, "ibus"),
            ActiveFramework::Fcitx5 => (ImFramework::Fcitx5, "fcitx"),
            _ => {
                return empty;
            },
        };
        if sdl_im_module_set {
            return empty;
        }
        let fw = framework_display_exec(f);
        let mut detail = chars_of("SDL2 apps (games, emulators, Steam overlay) need SDL_IM_MODULE set to `");
        append_str(&mut detail, value);
        append_str(&mut detail, "` to route Vietnamese input through ");
        append_str(&mut detail, fw);
        append_str(&mut detail, ". Without it those apps see raw keycodes.");
        let mut ev = chars_of("active: ");
        append_str(&mut ev, fw);
        let evidence = vec!["SDL_IM_MODULE: unset".to_owned(), string_of(&ev)];
        assert(string_views(evidence@) =~= seq!["SDL_IM_MODULE: unset"@, "active: "@ + framework_display(f)]);
        let iss = issue("VD004", Severity::Warn, "SDL_IM_MODULE is unset".to_owned(), string_of(&detail), evidence, Some("VR004"));
        assert(iss@ =~~= vd004_spec(active, sdl_im_module_set)[0]);
        let r = vec![iss];
        assert(issue_views(r@) =~= vd004_spec(active, sdl_im_module_set));
        r
    }
}

// ------------------------------------------------------------ IM variables against the daemon

/// The one framework an active-framework value names, if it names one.
pub open spec fn single_framework(a: ActiveFramework) -> ImFramework {
    match a {
        ActiveFramework::Ibus => ImFramework::Ibus,
        ActiveFramework::Fcitx5 => ImFramework::Fcitx5,
        _ => ImFramework::NoFramework,
    }
}

/// The first framework in the list that is not `NoFramework`.
pub open spec fn first_named(fs: Seq<ImFramework>) -> Option<ImFramework>
    decreases fs.len(),
{
    if fs.len() == 0 {
        None
    } else if fs[0] != ImFramework::NoFramework {
        Some(fs[0])
    } else {
        first_named(fs.drop_first())
    }
}

pub open spec fn assignment_lines(vars: Seq<(Seq<char>, Seq<char>)>) -> Seq<Seq<char>> {
    Seq::new(vars.len(), |i: int| vars[i].0 + "="@ + vars[i].1)
}

pub open spec fn active_line(active: ActiveFramework) -> Seq<char> {
    if single_framework(active) != ImFramework::NoFramework {
        "active framework: "@ + framework_display(single_framework(active))
    } else if active == ActiveFramework::Conflict {
        "active framework: conflict (both daemons running)"@
    } else {
        "active framework: none"@
    }
}

/// What VD003 reports, given the frameworks that the set variables among
/// GTK_IM_MODULE, QT_IM_MODULE and XMODIFIERS name (in that order),
/// whether those variables disagree, and every set IM variable with its
/// value: an error when they disagree, or when they agree on a framework
/// other than the single one running.
pub open spec fn vd003_spec(
    active: ActiveFramework,
    named: Seq<ImFramework>,
    disagreement: bool,
    vars: Seq<(Seq<char>, Seq<char>)>,
) -> Seq<IssueView> {
    let running = single_framework(active);
    let agreed = if disagreement { None } else { first_named(named) };
    let mismatch = match agreed {
        Some(u) => running != ImFramework::NoFramework && u != running,
        None => false,
    };
    if named.len() == 0 || (!disagreement && !mismatch) {
        seq![]
    } else {
        seq![IssueView {
            id: "VD003"@,
            severity: Severity::Error,
            title: if disagreement {
                "IM environment variables disagree"@
            } else {
                "IM environment variables don't match the active framework"@
            },
            detail: if disagreement {
                "GTK_IM_MODULE, QT_IM_MODULE, and XMODIFIERS point at different frameworks. GTK and Qt apps will route input differently, and Vietnamese input will work only for some of them."@
            } else {
                "The environment variables are aligned but point at a framework different from the one that's running ("@
                    + framework_display(running) + "). Update them to match."@
            },
            facts_evidence: assignment_lines(vars).push(active_line(active)),
            recommendation: Some("VR003"@),
        }]
    }
}

pub open spec fn pair_strings(v: Seq<(String, String)>) -> Seq<(Seq<char>, Seq<char>)> {
    Seq::new(v.len(), |i: int| (v[i].0@, v[i].1@))
}

impl Vd003 {
    /// Fires when the IM variables disagree with each other, or agree but
    /// name a framework other than the one running. `named` holds the
    /// frameworks that the set variables among GTK_IM_MODULE,
    /// QT_IM_MODULE and XMODIFIERS name, in that order; `disagreement`
    /// is the environment facts' verdict on whether they disagree; `vars`
    /// holds every set IM variable and its value, for the evidence.
    pub fn check_env(&self, active: ActiveFramework, named: &Vec<ImFramework>, disagreement: bool, vars: &Vec<(String, String)>) -> (r: Vec<Issue>)
        ensures
            issue_views(r@) == vd003_spec(active, named@, disagreement, pair_strings(vars@)),
    {
        let empty: Vec<Issue> = Vec::new();
        assert(issue_views(empty@) =~= Seq::<IssueView>::empty());
        if named.len() == 0 {
            return empty;
        }
        let running = match active {
            ActiveFramework::Ibus => ImFramework::Ibus,
            ActiveFramework::Fcitx5 => ImFramework::Fcitx5,
            _ => ImFramework::NoFramework,
        };
        let mut agreed: Option<ImFramework> = None;
        if !disagreement {
            let mut i: usize = 0;
            assert(named@.skip(0) =~= named@);
            while i < named.len()
                invariant_except_break
                    agreed is None,
                    first_named(named@) == first_named(named@.skip(i as int)),
                invariant
                    i <= named.len(),
                ensures
                    agreed == first_named(named@),
                decreases named.len() - i,
            {
                assert(named@.skip(i as int).drop_first() =~= named@.skip(i + 1));
                assert(named@.skip(i as int)[0] == named@[i as int]);
                if named[i] != ImFramework::NoFramework {
                    agreed = Some(named[i]);
                    break;
                }
                i += 1;
            }
        }
        assert(agreed == (if disagreement { None } else { first_named(named@) }));
        assert(running == single_framework(active));
        let mismatch = match agreed {
            Some(u) => running != ImFramework::NoFramework && u != running,
            None => false,
        };
        if !disagreement && !mismatch {
            return empty;
        }
        let mut evidence: Vec<String> = Vec::new();
        let mut j: usize = 0;
        while j < vars.len()
            invariant
                j <= vars.len(),
                string_views(evidence@) == assignment_lines(pair_strings(vars@)).take(j as int),
            decreases vars.len() - j,
        {
            let mut v = chars_of(vars[j].0.as_str());
            append_str(&mut v, "=");
            append_str(&mut v, vars[j].1.as_str());
            let ghost before = string_views(evidence@);
            let ghost line_j = v@;
            assert(line_j == assignment_lines(pair_strings(vars@))[j as int]);
            evidence.push(string_of(&v));
            assert(string_views(evidence@) =~= before.push(line_j));
            assert(assignment_lines(pair_strings(vars@)).take(j + 1) =~= assignment_lines(pair_strings(vars@)).take(j as int).push(line_j));
            j += 1;
        }
        assert(assignment_lines(pair_strings(vars@)).take(vars.len() as int) =~= assignment_lines(pair_strings(vars@)));
        let line = if running != ImFramework::NoFramework {
            let mut v = chars_of("active framework: ");
            append_str(&mut v, framework_display_exec(running));
            string_of(&v)
        } else if active == ActiveFramework::Conflict {
            "active framework: conflict (both daemons running)".to_owned()
        } else {
            "active framework: none".to_owned()
        };
        let ghost before = string_views(evidence@);
        evidence.push(line);
        assert(string_views(evidence@) =~= before.push(active_line(active)));
        let title = if disagreement {
            "IM environment variables disagree".to_owned()
        } else {
            "IM environment variables don't match the active framework".to_owned()
        };
        let detail = if disagreement {
            "GTK_IM_MODULE, QT_IM_MODULE, and XMODIFIERS point at different frameworks. GTK and Qt apps will route input differently, and Vietnamese input will work only for some of them.".to_owned()
        } else {
            let mut v = chars_of("The environment variables are aligned but point at a framework different from the one that's running (");
            append_str(&mut v, framework_display_exec(running));
            append_str(&mut v, "). Update them to match.");
            string_of(&v)
        };
        let iss = issue("VD003", Severity::Error, title, detail, evidence, Some("VR003"));
        assert(iss@ =~~= vd003_spec(active, named@, disagreement, pair_strings(vars@))[0]);
        let r = vec![iss];
        assert(issue_views(r@) =~= vd003_spec(active, named@, disagreement, pair_strings(vars@)));
        r
    }
}

// ------------------------------------------------------------ environment files

/// Where an environment variable's value was read from.
#[derive(Debug, Clone, Copy, PartialEq, Eq, Structural, Hash)]
pub enum EnvSource {
    Process,
    EtcEnvironment,
    EtcProfileD,
    HomeProfile,
    SystemdUserEnv,
    Pam,
    Unknown,
}

pub open spec fn source_label_spec(s: EnvSource) -> Seq<char> {
    match s {
        EnvSource::Process => "process env"@,
        EnvSource::EtcEnvironment => "/etc/environment"@,
        EnvSource::EtcProfileD => "/etc/profile.d/*.sh"@,
        EnvSource::HomeProfile => "~/.profile"@,
        EnvSource::SystemdUserEnv => "systemd --user"@,
        EnvSource::Pam => "pam"@,
        EnvSource::Unknown => "unknown"@,
    }
}

/// How VD009's evidence names a source.
pub fn source_label(s: EnvSource) -> (r: &'static str)
    ensures
        r@ == source_label_spec(s),
{
    match s {
        EnvSource::Process => "process env",
        EnvSource::EtcEnvironment => "/etc/environment",
        EnvSource::EtcProfileD => "/etc/profile.d/*.sh",
        EnvSource::HomeProfile => "~/.profile",
        EnvSource::SystemdUserEnv => "systemd --user",
        EnvSource::Pam => "pam",
        EnvSource::Unknown => "unknown",
    }
}

/// What the environment facts hold for one variable: its value, and the
/// source that value came from.
#[derive(Debug, Clone)]
pub struct EnvSetting {
    pub value: Option<String>,
    pub source: Option<EnvSource>,
}

/// One variable's contribution to VD009: its known source and an
/// evidence line, where it has a value and a source other than
/// `Unknown`.
pub open spec fn vd009_entry(key: Seq<char>, e: EnvSetting) -> Option<(EnvSource, Seq<char>)> {
    match (e.value, e.source) {
        (Some(v), Some(src)) => if src != EnvSource::Unknown {
            Some((src, key + "="@ + v@ + " (from "@ + source_label_spec(src) + ")"@))
        } else {
            None
        },
        _ => None,
    }
}

/// `acc` with the entry appended, where there is one.
pub open spec fn push_entry(acc: Seq<(EnvSource, Seq<char>)>, o: Option<(EnvSource, Seq<char>)>) -> Seq<(EnvSource, Seq<char>)> {
    match o {
        Some(x) => acc.push(x),
        None => acc,
    }
}

/// The entries of the three IM variables, in the order GTK_IM_MODULE,
/// QT_IM_MODULE, XMODIFIERS, leaving out those without a known source.
pub open spec fn vd009_entries(gtk: EnvSetting, qt: EnvSetting, xmodifiers: EnvSetting) -> Seq<(EnvSource, Seq<char>)> {
    push_entry(
        push_entry(push_entry(seq![], vd009_entry("GTK_IM_MODULE"@, gtk)), vd009_entry("QT_IM_MODULE"@, qt)),
        vd009_entry("XMODIFIERS"@, xmodifiers),
    )
}

/// At least two distinct sources occur among the entries.
pub open spec fn two_sources(es: Seq<(EnvSource, Seq<char>)>) -> bool {
    exists|i: int, j: int| 0 <= i < j < es.len() && (#[trigger] es[i]).0 != (#[trigger] es[j]).0
}

pub open spec fn vd009_text() -> Seq<char> {
    "Two or more config files (e.g. /etc/environment and ~/.profile) each set one of GTK_IM_MODULE / QT_IM_MODULE / XMODIFIERS, and the values disagree on the input-method framework. This is fragile: future package updates can silently flip the resolved framework. Consolidate all three variables into a single file and point them at the same framework."@
}

/// What VD009 reports: the three IM variables disagree on the framework
/// and their values come from at least two distinct known sources. The
/// evidence names each variable with a known source, in the order
/// GTK_IM_MODULE, QT_IM_MODULE, XMODIFIERS.
pub open spec fn vd009_spec(disagreement: bool, gtk: EnvSetting, qt: EnvSetting, xmodifiers: EnvSetting) -> Seq<IssueView> {
    let es = vd009_entries(gtk, qt, xmodifiers);
    if disagreement && two_sources(es) {
        seq![IssueView {
            id: "VD009"@,
            severity: Severity::Warn,
            title: "IM env vars set across multiple config files with conflicting values"@,
            detail: vd009_text(),
            facts_evidence: es.map_values(|e: (EnvSource, Seq<char>)| e.1),
            recommendation: Some("VR009"@),
        }]
    } else {
        seq![]
    }
}

/// Appends one variable's entry, if it has one, to the sources and the
/// evidence gathered so far.
fn vd009_add(key: &str, e: &EnvSetting, sources: &mut Vec<EnvSource>, evidence: &mut Vec<String>)
    requires
        old(sources)@.len() == old(evidence)@.len(),
    ensures
        final(sources)@.len() == final(evidence)@.len(),
        ({
            let acc = Seq::new(old(sources)@.len(), |k: int| (old(sources)@[k], old(evidence)@[k]@));
            let now = Seq::new(final(sources)@.len(), |k: int| (final(sources)@[k], final(evidence)@[k]@));
            now == push_entry(acc, vd009_entry(key@, *e))
        }),
{
    let ghost acc = Seq::new(sources@.len(), |k: int| (sources@[k], evidence@[k]@));
    match (&e.value, e.source) {
        (Some(v), Some(src)) => {
            if src != EnvSource::Unknown {
                let mut c = chars_of(key);
                append_str(&mut c, "=");
                append_str(&mut c, v.as_str());
                append_str(&mut c, " (from ");
                append_str(&mut c, source_label(src));
                append_str(&mut c, ")");
                sources.push(src);
                evidence.push(string_of(&c));
                let ghost now = Seq::new(sources@.len(), |k: int| (sources@[k], evidence@[k]@));
                assert(now =~= push_entry(acc, vd009_entry(key@, *e)));
            } else {
                let ghost now = Seq::new(sources@.len(), |k: int| (sources@[k], evidence@[k]@));
                assert(now =~= acc);
            }
        },
        _ => {
            let ghost now = Seq::new(sources@.len(), |k: int| (sources@[k], evidence@[k]@));
            assert(now =~= acc);
        },
    }
}

impl Vd009 {
    /// Fires when the IM variables disagree on the framework and are set
    /// from two or more distinct config sources. `disagreement` is the
    /// environment facts' verdict on whether GTK_IM_MODULE, QT_IM_MODULE
    /// and XMODIFIERS point at different frameworks.
    pub fn check_env(&self, disagreement: bool, gtk: &EnvSetting, qt: &EnvSetting, xmodifiers: &EnvSetting) -> (r: Vec<Issue>)
        ensures
            issue_views(r@) == vd009_spec(disagreement, *gtk, *qt, *xmodifiers),
    {
        if !disagreement {
            let r: Vec<Issue> = Vec::new();
            assert(issue_views(r@) =~= Seq::<IssueView>::empty());
            return r;
        }
        let mut sources: Vec<EnvSource> = Vec::new();
        let mut evidence: Vec<String> = Vec::new();
        proof {
            let acc = Seq::new(sources@.len(), |k: int| (sources@[k], evidence@[k]@));
            assert(acc =~= Seq::<(EnvSource, Seq<char>)>::empty());
        }
        vd009_add("GTK_IM_MODULE", gtk, &mut sources, &mut evidence);
        vd009_add("QT_IM_MODULE", qt, &mut sources, &mut evidence);
        vd009_add("XMODIFIERS", xmodifiers, &mut sources, &mut evidence);
        let ghost es = vd009_entries(*gtk, *qt, *xmodifiers);
        assert(Seq::new(sources@.len(), |k: int| (sources@[k], evidence@[k]@)) == es);
        assert forall|k: int| 0 <= k < es.len() implies sources@[k] == (#[trigger] es[k]).0 by {
            assert(es[k] == Seq::new(sources@.len(), |k: int| (sources@[k], evidence@[k]@))[k]);
        }
        let mut distinct = false;
        let mut j: usize = 1;
        while j < sources.len()
            invariant
                1 <= j,
                j <= sources.len() || sources.len() == 0,
                distinct == exists|b: int| 1 <= b < j && b < sources@.len() && #[trigger] sources@[b] != sources@[0],
            decreases sources.len() - j,
        {
            if sources[j] != sources[0] {
                distinct = true;
            }
            j += 1;
        }
        proof {
            if distinct {
                let b = choose|b: int| 1 <= b < j && b < sources@.len() && #[trigger] sources@[b] != sources@[0];
                assert(es[0].0 == sources@[0] && es[b].0 == sources@[b]);
                assert(es[0].0 != es[b].0);
            }
            if two_sources(es) {
                let (a, b) = choose|a: int, b: int| 0 <= a < b < es.len() && (#[trigger] es[a]).0 != (#[trigger] es[b]).0;
                if sources@[a] == sources@[0] {
                    assert(sources@[b] != sources@[0]);
                } else {
                    assert(sources@[a] != sources@[0] && 1 <= a);
                }
            }
        }
        if !distinct {
            let r: Vec<Issue> = Vec::new();
            assert(issue_views(r@) =~= Seq::<IssueView>::empty());
            return r;
        }
        let ghost ev = string_views(evidence@);
        assert(ev =~= es.map_values(|e: (EnvSource, Seq<char>)| e.1));
        let r = vec![issue(
            "VD009",
            Severity::Warn,
            "IM env vars set across multiple config files with conflicting values".to_owned(),
            "Two or more config files (e.g. /etc/environment and ~/.profile) each set one of GTK_IM_MODULE / QT_IM_MODULE / XMODIFIERS, and the values disagree on the input-method framework. This is fragile: future package updates can silently flip the resolved framework. Consolidate all three variables into a single file and point them at the same framework.".to_owned(),
            evidence,
            Some("VR009"),
        )];
        assert(issue_views(r@) =~= vd009_spec(disagreement, *gtk, *qt, *xmodifiers));
        r
    }
}

// ------------------------------------------------------------ Fcitx5 addons

/// The name the report publishes for a session type.
pub open spec fn session_name(s: SessionType) -> Seq<char> {
    match s {
        SessionType::X11 => "x11"@,
        SessionType::Wayland => "wayland"@,
        SessionType::Tty => "tty"@,
        SessionType::Unknown => "unknown"@,
    }
}

/// The session type's variant name.
pub open spec fn session_debug_name(s: SessionType) -> Seq<char> {
    match s {
        SessionType::X11 => "X11"@,
        SessionType::Wayland => "Wayland"@,
        SessionType::Tty => "Tty"@,
        SessionType::Unknown => "Unknown"@,
    }
}

/// Items joined by `, `.
pub open spec fn join_comma(s: Seq<Seq<char>>) -> Seq<char>
    decreases s.len(),
{
    if s.len() == 0 {
        seq![]
    } else if s.len() == 1 {
        s[0]
    } else {
        join_comma(s.drop_last()) + ", "@ + s.last()
    }
}

/// The addons that carry keyboard events to Fcitx5 in a session, any one
/// of which will do, and the name the issue gives them; none for other
/// sessions.
pub open spec fn required_addons(s: SessionType) -> Option<(Seq<Seq<char>>, Seq<char>)> {
    match s {
        SessionType::Wayland => Some((seq!["wayland-im"@, "waylandim"@], "wayland-im"@)),
        SessionType::X11 => Some((seq!["xim"@], "xim"@)),
        _ => None,
    }
}

/// Some enabled addon is one of the required ones, case aside.
pub open spec fn has_required_addon(enabled: Seq<Seq<char>>, required: Seq<Seq<char>>) -> bool {
    exists|i: int, j: int| 0 <= i < required.len() && 0 <= j < enabled.len() && lower_seq(#[trigger] enabled[j]) == lower_seq(#[trigger] required[i])
}

/// What VD013 reports: Fcitx5 is active in a Wayland or X11 session but
/// none of the addons that session needs is enabled.
pub open spec fn vd013_spec(active: ActiveFramework, fcitx5: Option<Seq<Seq<char>>>, session: Option<SessionType>) -> Seq<IssueView> {
    match (fcitx5, session) {
        (Some(addons), Some(s)) => match required_addons(s) {
            Some((required, name)) => if active == ActiveFramework::Fcitx5 && !has_required_addon(addons, required) {
                seq![IssueView {
                    id: "VD013"@,
                    severity: Severity::Warn,
                    title: "Fcitx5 is active but the `"@ + name + "` addon is not enabled"@,
                    detail: "The "@ + session_debug_name(s) + " session requires the `"@ + name
                        + "` addon for Fcitx5 to receive keyboard events. It is missing from `addons_enabled`; Vietnamese input will silently fail until it is enabled. Open fcitx5-configtool → Addons and tick it."@,
                    facts_evidence: seq!["session: "@ + session_name(s), "addons_enabled: ["@ + join_comma(addons) + "]"@],
                    recommendation: Some("VR013"@),
                }]
            } else {
                seq![]
            },
            None => seq![],
        },
        _ => seq![],
    }
}

fn join_comma_exec(items: &Vec<String>) -> (r: Vec<char>)
    ensures
        r@ == join_comma(string_views(items@)),
{
    let ghost all = string_views(items@);
    let mut out: Vec<char> = Vec::new();
    let mut i: usize = 0;
    assert(all.take(0) =~= Seq::<Seq<char>>::empty());
    while i < items.len()
        invariant
            i <= items.len(),
            all == string_views(items@),
            out@ == join_comma(all.take(i as int)),
        decreases items.len() - i,
    {
        assert(all.take(i + 1).drop_last() =~= all.take(i as int));
        assert(all.take(i + 1).last() == items@[i as int]@);
        if i > 0 {
            append_str(&mut out, ", ");
        } else {
            assert(all.take(1)[0] == items@[0]@);
        }
        append_str(&mut out, items[i].as_str());
        i += 1;
    }
    assert(all.take(items.len() as int) =~= all);
    out
}

fn any_addon(enabled: &Vec<String>, required: &Vec<&str>) -> (b: bool)
    ensures
        b == has_required_addon(string_views(enabled@), crate::recommendations::strs_view(required@)),
{
    let ghost en = string_views(enabled@);
    let ghost rq = crate::recommendations::strs_view(required@);
    let mut i: usize = 0;
    while i < required.len()
        invariant
            i <= required.len(),
            en == string_views(enabled@),
            rq == crate::recommendations::strs_view(required@),
            forall|a: int, j: int| 0 <= a < i && 0 <= j < en.len() ==> lower_seq(#[trigger] en[j]) != lower_seq(#[trigger] rq[a]),
        decreases required.len() - i,
    {
        let need = to_lower(&chars_of(required[i]));
        let mut j: usize = 0;
        while j < enabled.len()
            invariant
                j <= enabled.len(),
                i < required.len(),
                en == string_views(enabled@),
                rq == crate::recommendations::strs_view(required@),
                need@ == lower_seq(rq[i as int]),
                forall|k: int| 0 <= k < j ==> lower_seq(#[trigger] en[k]) != lower_seq(rq[i as int]),
            decreases enabled.len() - j,
        {
            let have = to_lower(&chars_of(enabled[j].as_str()));
            if crate::text::seq_eq(&have, &need) {
                assert(lower_seq(en[j as int]) == lower_seq(rq[i as int]));
                return true;
            }
            j += 1;
        }
        i += 1;
    }
    false
}

impl Vd013 {
    /// Fires when Fcitx5 is active but the addon the session needs
    /// (`wayland-im` on Wayland, `xim` on X11) is not enabled.
    /// `fcitx5_addons` is the enabled-addon list of the Fcitx5 facts, where
    /// there are any.
    pub fn check_addons(&self, active: ActiveFramework, fcitx5_addons: Option<&Vec<String>>, session: Option<SessionType>) -> (r: Vec<Issue>)
        ensures
            issue_views(r@) == vd013_spec(active, match fcitx5_addons {
                Some(a) => Some(string_views(a@)),
                None => None,
            }, session),
    {
        let empty: Vec<Issue> = Vec::new();
        assert(issue_views(empty@) =~= Seq::<IssueView>::empty());
        if active != ActiveFramework::Fcitx5 {
            return empty;
        }
        let addons = match fcitx5_addons {
            Some(a) => a,
            None => {
                return empty;
            },
        };
        let s = match session {
            Some(s) => s,
            None => {
                return empty;
            },
        };
        let (required, name, debug_name, published): (Vec<&str>, &str, &str, &str) = match s {
            SessionType::Wayland => (vec!["wayland-im", "waylandim"], "wayland-im", "Wayland", "wayland"),
            SessionType::X11 => (vec!["xim"], "xim", "X11", "x11"),
            _ => {
                return empty;
            },
        };
        assert(crate::recommendations::strs_view(required@) =~= required_addons(s)->Some_0.0);
        if any_addon(addons, &required) {
            return empty;
        }
        let mut title = chars_of("Fcitx5 is active but the `");
        append_str(&mut title, name);
        append_str(&mut title, "` addon is not enabled");
        let mut detail = chars_of("The ");
        append_str(&mut detail, debug_name);
        append_str(&mut detail, " session requires the `");
        append_str(&mut detail, name);
        append_str(&mut detail, "` addon for Fcitx5 to receive keyboard events. It is missing from `addons_enabled`; Vietnamese input will silently fail until it is enabled. Open fcitx5-configtool → Addons and tick it.");
        let mut e0 = chars_of("session: ");
        append_str(&mut e0, published);
        let mut e1 = chars_of("addons_enabled: [");
        let joined = join_comma_exec(addons);
        crate::text::append_chars(&mut e1, &joined);
        append_str(&mut e1, "]");
        let evidence = vec![string_of(&e0), string_of(&e1)];
        assert(string_views(evidence@) =~= seq![e0@, e1@]);
        assert(name@ == required_addons(s)->Some_0.1);
        assert(debug_name@ == session_debug_name(s));
        assert(published@ == session_name(s));
        let iss = issue("VD013", Severity::Warn, string_of(&title), string_of(&detail), evidence, Some("VR013"));
        assert(iss@ =~~= vd013_spec(active, Some(string_views(addons@)), session)[0]);
        let r = vec![iss];
        assert(issue_views(r@) =~= vd013_spec(active, Some(string_views(addons@)), session));
        r
    }
}

// ------------------------------------------------------------ applications

/// How an application is packaged and run.
#[derive(Debug, Clone)]
pub enum AppKind {
    Native,
    Electron,
    Chromium,
    AppImage,
    Jvm,
    Snap { name: String },
    Flatpak { sandbox_id: String },
}

/// What the app detectors found out about one application.
#[derive(Debug, Clone)]
pub struct AppFacts {
    pub app_id: String,
    pub binary_path: String,
    pub version: Option<String>,
    pub kind: AppKind,
    pub electron_version: Option<String>,
    pub uses_wayland: Option<bool>,
    pub detector_notes: Vec<String>,
}

/// The issues a per-application rule gives, in application order.
pub open spec fn per_app(apps: Seq<AppFacts>, rule: spec_fn(AppFacts) -> Option<IssueView>) -> Seq<IssueView>
    decreases apps.len(),
{
    if apps.len() == 0 {
        seq![]
    } else {
        let r = per_app(apps.drop_last(), rule);
        match rule(apps.last()) {
            Some(i) => r.push(i),
            None => r,
        }
    }
}

proof fn lemma_per_app_step(apps: Seq<AppFacts>, i: int, rule: spec_fn(AppFacts) -> Option<IssueView>)
    requires
        0 <= i < apps.len(),
    ensures
        per_app(apps.take(i + 1), rule) == match rule(apps[i]) {
            Some(x) => per_app(apps.take(i), rule).push(x),
            None => per_app(apps.take(i), rule),
        },
{
    assert(apps.take(i + 1).drop_last() =~= apps.take(i));
    assert(apps.take(i + 1).last() == apps[i]);
}

pub open spec fn is_electron_like(k: AppKind) -> bool {
    k is Electron || k is Chromium
}

pub open spec fn vd007_rule() -> spec_fn(AppFacts) -> Option<IssueView> {
    |a: AppFacts| if is_electron_like(a.kind) && a.uses_wayland == Some(false) {
        Some(IssueView {
            id: "VD007"@,
            severity: Severity::Error,
            title: a.app_id@ + (match a.electron_version {
                Some(v) => " (Electron "@ + v@ + ")"@,
                None => seq![],
            }) + " is missing Wayland Ozone flags"@,
            detail: a.app_id@ + " is running without `--ozone-platform=wayland`. Electron/Chromium apps drop Vietnamese input under Wayland unless they're launched with the Ozone Wayland backend enabled."@,
            facts_evidence: seq![a.app_id@ + " running without --ozone-platform=wayland"@],
            recommendation: Some("VR007"@),
        })
    } else {
        None
    }
}

impl Vd007 {
    /// One issue per Electron or Chromium app known to run without the
    /// Ozone/Wayland flags.
    pub fn check_apps(&self, apps: &[AppFacts]) -> (r: Vec<Issue>)
        ensures
            issue_views(r@) == per_app(apps@, vd007_rule()),
    {
        let mut out: Vec<Issue> = Vec::new();
        let mut i: usize = 0;
        assert(apps@.take(0) =~= Seq::<AppFacts>::empty());
        assert(issue_views(out@) =~= Seq::<IssueView>::empty());
        while i < apps.len()
            invariant
                i <= apps.len(),
                issue_views(out@) == per_app(apps@.take(i as int), vd007_rule()),
            decreases apps.len() - i,
        {
            proof {
                lemma_per_app_step(apps@, i as int, vd007_rule());
            }
            let a = &apps[i];
            let electron_like = matches!(a.kind, AppKind::Electron | AppKind::Chromium);
            if electron_like && a.uses_wayland == Some(false) {
                let version = match &a.electron_version {
                    Some(v) => cat3(" (Electron ", v.as_str(), ")"),
                    None => String::new(),
                };
                let title = cat3(a.app_id.as_str(), version.as_str(), " is missing Wayland Ozone flags");
                let detail = cat2(a.app_id.as_str(), " is running without `--ozone-platform=wayland`. Electron/Chromium apps drop Vietnamese input under Wayland unless they're launched with the Ozone Wayland backend enabled.");
                let ev = one(cat2(a.app_id.as_str(), " running without --ozone-platform=wayland"));
                let iss = issue("VD007", Severity::Error, title, detail, ev, Some("VR007"));
                let ghost before = issue_views(out@);
                out.push(iss);
                assert(issue_views(out@) =~= before.push(iss@));
                assert(iss@ =~~= vd007_rule()(apps@[i as int])->Some_0);
            }
            i += 1;
        }
        assert(apps@.take(apps.len() as int) =~= apps@);
        out
    }
}

pub open spec fn vd008_rule() -> spec_fn(AppFacts) -> Option<IssueView> {
    |a: AppFacts| if a.app_id@ == "chrome"@ && is_electron_like(a.kind) && a.uses_wayland == Some(false) {
        Some(IssueView {
            id: "VD008"@,
            severity: Severity::Warn,
            title: "Chrome is using X11 on a Wayland session"@,
            detail: "Chrome is running through XWayland instead of its Ozone/Wayland backend. Vietnamese input drops through the X11 shim in that mode. Switch the Ozone platform to Wayland."@,
            facts_evidence: seq!["session: wayland"@, a.app_id@ + ": --ozone-platform=wayland not set"@],
            recommendation: Some("VR008"@),
        })
    } else {
        None
    }
}

impl Vd008 {
    /// On a Wayland session, one issue per Chrome process known to run
    /// through X11.
    pub fn check_apps(&self, session: Option<SessionType>, apps: &[AppFacts]) -> (r: Vec<Issue>)
        ensures
            session != Some(SessionType::Wayland) ==> r@.len() == 0,
            session == Some(SessionType::Wayland) ==> issue_views(r@) == per_app(apps@, vd008_rule()),
    {
        let mut out: Vec<Issue> = Vec::new();
        if session != Some(SessionType::Wayland) {
            return out;
        }
        let mut i: usize = 0;
        assert(apps@.take(0) =~= Seq::<AppFacts>::empty());
        assert(issue_views(out@) =~= Seq::<IssueView>::empty());
        let chrome = chars_of("chrome");
        while i < apps.len()
            invariant
                i <= apps.len(),
                chrome@ == "chrome"@,
                issue_views(out@) == per_app(apps@.take(i as int), vd008_rule()),
            decreases apps.len() - i,
        {
            proof {
                lemma_per_app_step(apps@, i as int, vd008_rule());
            }
            let a = &apps[i];
            let id = chars_of(a.app_id.as_str());
            let electron_like = matches!(a.kind, AppKind::Electron | AppKind::Chromium);
            if crate::text::seq_eq(&id, &chrome) && electron_like && a.uses_wayland == Some(false) {
                let ev = two("session: wayland".to_owned(), cat2(a.app_id.as_str(), ": --ozone-platform=wayland not set"));
                let iss = issue(
                    "VD008",
                    Severity::Warn,
                    "Chrome is using X11 on a Wayland session".to_owned(),
                    "Chrome is running through XWayland instead of its Ozone/Wayland backend. Vietnamese input drops through the X11 shim in that mode. Switch the Ozone platform to Wayland.".to_owned(),
                    ev,
                    Some("VR008"),
                );
                let ghost before = issue_views(out@);
                out.push(iss);
                assert(issue_views(out@) =~= before.push(iss@));
                assert(iss@ =~~= vd008_rule()(apps@[i as int])->Some_0);
            }
            i += 1;
        }
        assert(apps@.take(apps.len() as int) =~= apps@);
        out
    }
}

pub open spec fn vd010_rule() -> spec_fn(AppFacts) -> Option<IssueView> {
    |a: AppFacts| match a.kind {
        AppKind::Snap { name } => if a.app_id@ == "vscode"@ || a.app_id@ == "code"@ {
            Some(IssueView {
                id: "VD010"@,
                severity: Severity::Warn,
                title: "VSCode is installed as a Snap — Vietnamese input may not work"@,
                detail: "Snap confinement strips IM env vars at launch, so VSCode running from the Snap package does not see GTK_IM_MODULE / QT_IM_MODULE. Install the .deb / tarball build from https://code.visualstudio.com or the Flatpak instead — both respect IM env routing."@,
                facts_evidence: seq![
                    a.app_id@ + ": Snap package `"@ + name@ + "`"@,
                    "binary: "@ + a.binary_path@,
                ],
                recommendation: Some("VR010"@),
            })
        } else {
            None
        },
        _ => None,
    }
}

impl Vd010 {
    /// One issue per VSCode installed as a Snap.
    pub fn check_apps(&self, apps: &[AppFacts]) -> (r: Vec<Issue>)
        ensures
            issue_views(r@) == per_app(apps@, vd010_rule()),
    {
        let mut out: Vec<Issue> = Vec::new();
        let mut i: usize = 0;
        assert(apps@.take(0) =~= Seq::<AppFacts>::empty());
        assert(issue_views(out@) =~= Seq::<IssueView>::empty());
        while i < apps.len()
            invariant
                i <= apps.len(),
                issue_views(out@) == per_app(apps@.take(i as int), vd010_rule()),
            decreases apps.len() - i,
        {
            proof {
                lemma_per_app_step(apps@, i as int, vd010_rule());
            }
            let a = &apps[i];
            match &a.kind {
                AppKind::Snap { name } => {
                    let id = chars_of(a.app_id.as_str());
                    if crate::text::eq_str(&id, "vscode") || crate::text::eq_str(&id, "code") {
                        let mut l1 = chars_of(a.app_id.as_str());
                        append_str(&mut l1, ": Snap package `");
                        append_str(&mut l1, name.as_str());
                        append_str(&mut l1, "`");
                        let ev = two(string_of(&l1), cat2("binary: ", a.binary_path.as_str()));
                        let iss = issue(
                            "VD010",
                            Severity::Warn,
                            "VSCode is installed as a Snap — Vietnamese input may not work".to_owned(),
                            "Snap confinement strips IM env vars at launch, so VSCode running from the Snap package does not see GTK_IM_MODULE / QT_IM_MODULE. Install the .deb / tarball build from https://code.visualstudio.com or the Flatpak instead — both respect IM env routing.".to_owned(),
                            ev,
                            Some("VR010"),
                        );
                        let ghost before = issue_views(out@);
                        out.push(iss);
                        assert(issue_views(out@) =~= before.push(iss@));
                        assert(iss@ =~~= vd010_rule()(apps@[i as int])->Some_0);
                    }
                },
                _ => {},
            }
            i += 1;
        }
        assert(apps@.take(apps.len() as int) =~= apps@);
        out
    }
}

pub open spec fn vd011_rule() -> spec_fn(AppFacts) -> Option<IssueView> {
    |a: AppFacts| match a.kind {
        AppKind::Flatpak { sandbox_id } => if exists|i: int|
            0 <= i < a.detector_notes@.len() && portal_note(#[trigger] a.detector_notes@[i]@) {
            None
        } else {
            Some(IssueView {
                id: "VD011"@,
                severity: Severity::Warn,
                title: "Flatpak app `"@ + a.app_id@ + "` may not have access to the IM socket"@,
                detail: "Flatpak sandboxes each app into its own filesystem/DBus namespace. The IBus / Fcitx5 socket must be exposed via `flatpak override` or a `--socket` manifest entry for the app to see Vietnamese input. Doctor couldn't find an IM portal hint in this app's notes, so Vietnamese input may silently fail inside it."@,
                facts_evidence: seq![
                    a.app_id@ + ": Flatpak (sandbox: "@ + sandbox_id@ + ")"@,
                    "binary: "@ + a.binary_path@,
                ],
                recommendation: Some("VR011"@),
            })
        },
        _ => None,
    }
}

impl Vd011 {
    /// One issue per Flatpak app whose notes show no input-method portal.
    pub fn check_apps(&self, apps: &[AppFacts]) -> (r: Vec<Issue>)
        ensures
            issue_views(r@) == per_app(apps@, vd011_rule()),
    {
        let mut out: Vec<Issue> = Vec::new();
        let mut i: usize = 0;
        assert(apps@.take(0) =~= Seq::<AppFacts>::empty());
        assert(issue_views(out@) =~= Seq::<IssueView>::empty());
        while i < apps.len()
            invariant
                i <= apps.len(),
                issue_views(out@) == per_app(apps@.take(i as int), vd011_rule()),
            decreases apps.len() - i,
        {
            proof {
                lemma_per_app_step(apps@, i as int, vd011_rule());
            }
            let a = &apps[i];
            match &a.kind {
                AppKind::Flatpak { sandbox_id } => {
                    if !has_im_portal_hint(a.detector_notes.as_slice()) {
                        let mut l1 = chars_of(a.app_id.as_str());
                        append_str(&mut l1, ": Flatpak (sandbox: ");
                        append_str(&mut l1, sandbox_id.as_str());
                        append_str(&mut l1, ")");
                        let ev = two(string_of(&l1), cat2("binary: ", a.binary_path.as_str()));
                        let iss = issue(
                            "VD011",
                            Severity::Warn,
                            cat3("Flatpak app `", a.app_id.as_str(), "` may not have access to the IM socket"),
                            "Flatpak sandboxes each app into its own filesystem/DBus namespace. The IBus / Fcitx5 socket must be exposed via `flatpak override` or a `--socket` manifest entry for the app to see Vietnamese input. Doctor couldn't find an IM portal hint in this app's notes, so Vietnamese input may silently fail inside it.".to_owned(),
                            ev,
                            Some("VR011"),
                        );
                        let ghost before = issue_views(out@);
                        out.push(iss);
                        assert(issue_views(out@) =~= before.push(iss@));
                        assert(iss@ =~~= vd011_rule()(apps@[i as int])->Some_0);
                    }
                },
                _ => {},
            }
            i += 1;
        }
        assert(apps@.take(apps.len() as int) =~= apps@);
        out
    }
}

// ------------------------------------------------------------ ordering

pub open spec fn rank(s: Severity) -> int {
    match s {
        Severity::Info => 0,
        Severity::Warn => 1,
        Severity::Error => 2,
        Severity::Critical => 3,
    }
}

/// `a` is listed before `b`: more severe first, then by id.
pub open spec fn listed_before(a: IssueView, b: IssueView) -> bool {
    rank(a.severity) > rank(b.severity) || (rank(a.severity) == rank(b.severity) && seq_lt(a.id, b.id))
}

/// No issue is listed after one that should come later.
pub open spec fn issues_ordered(s: Seq<IssueView>) -> bool {
    forall|i: int, j: int| 0 <= i < j < s.len() ==> !listed_before(#[trigger] s[j], #[trigger] s[i])
}

proof fn lemma_before_asym(a: IssueView, b: IssueView)
    ensures
        !(listed_before(a, b) && listed_before(b, a)),
{
    lemma_lt_total(a.id, b.id);
}

proof fn lemma_before_trans(a: IssueView, b: IssueView, c: IssueView)
    requires
        listed_before(a, b),
        listed_before(b, c),
    ensures
        listed_before(a, c),
{
    if rank(a.severity) == rank(b.severity) && rank(b.severity) == rank(c.severity) {
        lemma_lt_transitive(a.id, b.id, c.id);
    }
}

fn severity_rank(s: Severity) -> (r: u8)
    ensures
        r == rank(s),
{
    match s {
        Severity::Info => 0,
        Severity::Warn => 1,
        Severity::Error => 2,
        Severity::Critical => 3,
    }
}

fn before_exec(a: &Issue, b: &Issue) -> (r: bool)
    ensures
        r == listed_before(a@, b@),
{
    let ra = severity_rank(a.severity);
    let rb = severity_rank(b.severity);
    if ra != rb {
        return ra > rb;
    }
    let x = chars_of(a.id.as_str());
    let y = chars_of(b.id.as_str());
    lt_chars(&x, &y)
}

/// Where an issue goes in an ordered list: before the first issue it is
/// listed before, so after every issue it ties with.
pub open spec fn insert_pos(o: Seq<IssueView>, x: IssueView) -> int
    decreases o.len(),
{
    if o.len() == 0 {
        0
    } else {
        let k = insert_pos(o.drop_last(), x);
        if k < o.len() - 1 {
            k
        } else if listed_before(x, o.last()) {
            o.len() - 1
        } else {
            o.len() as int
        }
    }
}

/// The report order of a list of issues: each issue in turn inserted
/// where `insert_pos` puts it, so that issues which tie keep the order
/// they were found in.
pub open spec fn report_order(s: Seq<IssueView>) -> Seq<IssueView>
    decreases s.len(),
{
    if s.len() == 0 {
        seq![]
    } else {
        let r = report_order(s.drop_last());
        r.insert(insert_pos(r, s.last()), s.last())
    }
}

proof fn lemma_insert_pos(o: Seq<IssueView>, x: IssueView, k: int)
    requires
        0 <= k <= o.len(),
        forall|j: int| 0 <= j < k ==> !listed_before(x, #[trigger] o[j]),
        k < o.len() ==> listed_before(x, o[k]),
    ensures
        insert_pos(o, x) == k,
    decreases o.len(),
{
    if o.len() > 0 {
        let d = o.drop_last();
        if k < o.len() {
            if k < o.len() - 1 {
                assert(d[k] == o[k]);
                lemma_insert_pos(d, x, k);
            } else {
                lemma_insert_pos(d, x, d.len() as int);
            }
        } else {
            lemma_insert_pos(d, x, d.len() as int);
        }
    }
}

fn insert_issue(out: &mut Vec<Issue>, x: Issue)
    requires
        issues_ordered(issue_views(old(out)@)),
    ensures
        issue_views(final(out)@) == issue_views(old(out)@).insert(insert_pos(issue_views(old(out)@), x@), x@),
        issues_ordered(issue_views(final(out)@)),
        issue_views(final(out)@).to_multiset() == issue_views(old(out)@).to_multiset().insert(x@),
{
    let ghost xv = x@;
    let ghost o = issue_views(out@);
    let mut k: usize = 0;
    while k < out.len() && !before_exec(&x, &out[k])
        invariant
            k <= out.len(),
            xv == x@,
            o == issue_views(out@),
            forall|j: int| 0 <= j < k ==> !listed_before(xv, #[trigger] o[j]),
        decreases out.len() - k,
    {
        assert(o[k as int] == out@[k as int]@);
        k += 1;
    }
    if k < out.len() {
        assert(o[k as int] == out@[k as int]@);
    }
    assert(k < o.len() ==> listed_before(xv, o[k as int]));
    proof {
        lemma_insert_pos(o, xv, k as int);
    }
    out.insert(k, x);
    let ghost n = issue_views(out@);
    assert(n =~= o.insert(k as int, xv));
    assert forall|i: int, j: int| 0 <= i < j < n.len() implies !listed_before(#[trigger] n[j], #[trigger] n[i]) by {
        if j < k {
            assert(n[i] == o[i] && n[j] == o[j]);
            assert(!listed_before(o[j], o[i]));
        } else if j == k {
            assert(n[i] == o[i] && n[j] == xv);
            assert(!listed_before(xv, o[i]));
        } else if i == k {
            assert(n[i] == xv && n[j] == o[j - 1]);
            if listed_before(o[j - 1], xv) {
                if j - 1 > k {
                    lemma_before_trans(o[j - 1], xv, o[k as int]);
                    assert(!listed_before(o[j - 1], o[k as int]));
                } else {
                    lemma_before_asym(xv, o[k as int]);
                }
            }
        } else if i < k {
            assert(n[i] == o[i] && n[j] == o[j - 1]);
            assert(!listed_before(o[j - 1], o[i]));
        } else {
            assert(n[i] == o[i - 1] && n[j] == o[j - 1]);
            assert(!listed_before(o[j - 1], o[i - 1]));
        }
    }
}

/// The issues in report order: most severe first, then by id, issues
/// that tie keeping the order they were found in; the same issues, each as
/// often as given.
pub fn sort_issues(issues: Vec<Issue>) -> (r: Vec<Issue>)
    ensures
        issue_views(r@) == report_order(issue_views(issues@)),
        issues_ordered(issue_views(r@)),
        issue_views(r@).to_multiset() == issue_views(issues@).to_multiset(),
{
    let ghost all = issue_views(issues@);
    let mut out: Vec<Issue> = Vec::new();
    let mut rest = issues;
    let mut i: usize = 0;
    let n = rest.len();
    assert(all.take(0) =~= Seq::<IssueView>::empty());
    assert(issue_views(out@) =~= Seq::<IssueView>::empty());
    while i < n
        invariant
            i <= n,
            n == rest.len(),
            all == issue_views(rest@),
            issues_ordered(issue_views(out@)),
            issue_views(out@) == report_order(all.take(i as int)),
            issue_views(out@).to_multiset() == all.take(i as int).to_multiset(),
        decreases n - i,
    {
        let x = rest[i].clone_issue();
        assert(x@ == all[i as int]);
        assert(all.take(i + 1).drop_last() =~= all.take(i as int));
        assert(all.take(i + 1).last() == all[i as int]);
        insert_issue(&mut out, x);
        assert(all.take(i + 1) =~= all.take(i as int).push(all[i as int]));
        i += 1;
    }
    assert(all.take(n as int) =~= all);
    out
}

fn clone_strings(v: &Vec<String>) -> (r: Vec<String>)
    ensures
        string_views(r@) == string_views(v@),
{
    let mut out: Vec<String> = Vec::new();
    let mut i: usize = 0;
    while i < v.len()
        invariant
            i <= v.len(),
            string_views(out@) == string_views(v@).take(i as int),
        decreases v.len() - i,
    {
        let ghost before = string_views(out@);
        out.push(v[i].clone());
        assert(string_views(out@) =~= before.push(v@[i as int]@));
        assert(string_views(v@).take(i + 1) =~= string_views(v@).take(i as int).push(v@[i as int]@));
        i += 1;
    }
    assert(string_views(v@).take(v.len() as int) =~= string_views(v@));
    out
}

impl Issue {
    /// A copy with the same content.
    pub fn clone_issue(&self) -> (c: Issue)
        ensures
            c@ == self@,
    {
        Issue {
            id: self.id.clone(),
            severity: self.severity,
            title: self.title.clone(),
            detail: self.detail.clone(),
            facts_evidence: clone_strings(&self.facts_evidence),
            recommendation: match &self.recommendation {
                Some(r) => Some(r.clone()),
                None => None,
            },
        }
    }
}

} // verus!
