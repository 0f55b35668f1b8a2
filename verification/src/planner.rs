//! The planner: turns what is known of the host and what the user asked
//! for into the exact list of steps the executor will run, and checks the
//! rule every plan must keep: a file is backed up before it is changed.
use crate::model::{engine_name, env_file_path, path_join, steps_view, step_kind, ActiveFramework, Combo, DistroFamily, Engine, EnvFile, EnvFileView, Goal, ImFramework, PackageManager, Plan, PreState, PromptCondition, Step, StepView, VerifyCheck, VerifyCheckView};
use crate::text::{append_str, chars_of, split_char, split_char_exec, string_of, string_views, views};
use vstd::prelude::*;

verus! {

/// Why no plan could be made.
#[derive(Debug)]
pub enum PlanError {
    /// The combo cannot be installed on this distribution family.
    UnsupportedCombo { combo: Combo, family: DistroFamily },
    /// The goal has no planner yet.
    UnimplementedGoal { goal: &'static str, ticket: &'static str },
    /// A step changes `target` with no earlier backup of it.
    MissingBackup { index: usize, kind: &'static str, target: String },
    /// The plan sets no env var, so it would leave the user unable to type.
    NoEnvVars,
}

/// How a distribution family is written in messages (its `Debug` form).
pub open spec fn family_text(f: DistroFamily) -> Seq<char> {
    match f {
        DistroFamily::Debian => "Debian"@,
        DistroFamily::Redhat => "Redhat"@,
        DistroFamily::Arch => "Arch"@,
        DistroFamily::Suse => "Suse"@,
        DistroFamily::Alpine => "Alpine"@,
        DistroFamily::Nix => "Nix"@,
        DistroFamily::Unknown => "Unknown"@,
    }
}

fn family_str(f: DistroFamily) -> (s: &'static str)
    ensures
        s@ == family_text(f),
{
    match f {
        DistroFamily::Debian => "Debian",
        DistroFamily::Redhat => "Redhat",
        DistroFamily::Arch => "Arch",
        DistroFamily::Suse => "Suse",
        DistroFamily::Alpine => "Alpine",
        DistroFamily::Nix => "Nix",
        DistroFamily::Unknown => "Unknown",
    }
}

/// What a planner error says to the user.
pub open spec fn plan_error_text(e: PlanError) -> Seq<char> {
    match e {
        PlanError::UnsupportedCombo { combo, family } => "combo `"@ + crate::model::combo_slug(combo)
            + "` is not yet supported on distro family "@ + family_text(family)
            + ". See tasks/phase-2-installer.md INS-53 (Fedora/Arch) or INS-50/51."@,
        PlanError::UnimplementedGoal { goal, ticket } => "goal `"@ + goal@ + "` is not yet implemented — see "@
            + ticket@ + "."@,
        PlanError::MissingBackup { index, kind, target } => "plan invariant violated at step "@
            + crate::text::decimal(index as nat) + " ("@ + kind@ + "): step mutates `"@ + target@
            + "` without a preceding BackupFile"@,
        PlanError::NoEnvVars => "plan sets no input-method env var and would leave the user unable to type"@,
    }
}

impl PlanError {
    /// The error's message.
    pub fn message(&self) -> (m: String)
        ensures
            m@ == plan_error_text(*self),
    {
        let mut v: Vec<char> = Vec::new();
        match self {
            PlanError::UnsupportedCombo { combo, family } => {
                append_str(&mut v, "combo `");
                let slug = combo.slug();
                append_str(&mut v, slug.as_str());
                append_str(&mut v, "` is not yet supported on distro family ");
                append_str(&mut v, family_str(*family));
                append_str(&mut v, ". See tasks/phase-2-installer.md INS-53 (Fedora/Arch) or INS-50/51.");
            },
            PlanError::UnimplementedGoal { goal, ticket } => {
                append_str(&mut v, "goal `");
                append_str(&mut v, goal);
                append_str(&mut v, "` is not yet implemented — see ");
                append_str(&mut v, ticket);
                append_str(&mut v, ".");
            },
            PlanError::MissingBackup { index, kind, target } => {
                append_str(&mut v, "plan invariant violated at step ");
                crate::text::push_decimal(&mut v, *index);
                append_str(&mut v, " (");
                append_str(&mut v, kind);
                append_str(&mut v, "): step mutates `");
                append_str(&mut v, target.as_str());
                append_str(&mut v, "` without a preceding BackupFile");
            },
            PlanError::NoEnvVars => {
                append_str(&mut v, "plan sets no input-method env var and would leave the user unable to type");
            },
        }
        string_of(&v)
    }
}

/// The home directory plans are written against.
pub open spec fn home_dir() -> Seq<char> {
    "/home/vietime"@
}

/// The fixed home used to resolve env-file paths, so that plans do not
/// depend on the user who made them.
pub fn planner_home() -> (h: String)
    ensures
        h@ == home_dir(),
{
    "/home/vietime".to_owned()
}

// ------------------------------------------------------------ the rule

/// The file a step changes, if it changes one that must be backed up.
pub open spec fn step_target(s: StepView, home: Seq<char>) -> Option<Seq<char>> {
    match s {
        StepView::SetEnvVar { file, .. } => Some(env_file_path(file, home)),
        StepView::UnsetEnvVar { file, .. } => Some(env_file_path(file, home)),
        StepView::WriteFile { path, .. } => Some(path),
        _ => None,
    }
}

/// The parts of a path that `PathBuf` compares: whether it starts at the
/// root, and its components, with empty ones and `.` dropped but for a
/// `.` that begins a relative path.
pub open spec fn kept_parts(segs: Seq<Seq<char>>, relative: bool) -> Seq<Seq<char>>
    decreases segs.len(),
{
    if segs.len() == 0 {
        seq![]
    } else {
        let r = kept_parts(segs.drop_last(), relative);
        let c = segs.last();
        if c.len() > 0 && (c != seq!['.'] || (segs.len() == 1 && relative)) {
            r.push(c)
        } else {
            r
        }
    }
}

pub open spec fn path_norm(p: Seq<char>) -> (bool, Seq<Seq<char>>) {
    let rooted = p.len() > 0 && p[0] == '/';
    (rooted, kept_parts(split_char(p, '/'), !rooted))
}

/// Two paths name the same file as `PathBuf` equality sees it: the same
/// components (`/etc//environment` is `/etc/environment`).
pub open spec fn same_path(a: Seq<char>, b: Seq<char>) -> bool {
    path_norm(a) == path_norm(b)
}

/// The step is a backup of `p`.
pub open spec fn backs_up(s: StepView, p: Seq<char>) -> bool {
    match s {
        StepView::BackupFile { path } => same_path(path, p),
        _ => false,
    }
}

/// Some step before `i` backs up `p`.
pub open spec fn backed_up_before(steps: Seq<StepView>, i: int, p: Seq<char>) -> bool {
    exists|j: int| 0 <= j < i && #[trigger] backs_up(steps[j], p)
}

/// Some path of `v` names the same file as `p`.
pub open spec fn has_path(v: Seq<Seq<char>>, p: Seq<char>) -> bool {
    exists|k: int| 0 <= k < v.len() && same_path(#[trigger] v[k], p)
}

/// Step `i` keeps the rule.
pub open spec fn step_ok(steps: Seq<StepView>, i: int, home: Seq<char>) -> bool {
    match step_target(steps[i], home) {
        Some(t) => backed_up_before(steps, i, t),
        None => true,
    }
}

/// Every step keeps the rule.
pub open spec fn plan_valid(steps: Seq<StepView>, home: Seq<char>) -> bool {
    forall|i: int| 0 <= i < steps.len() ==> #[trigger] step_ok(steps, i, home)
}

/// Some step sets an env var.
pub open spec fn sets_env_var(steps: Seq<StepView>) -> bool {
    exists|i: int| 0 <= i < steps.len() && #[trigger] steps[i] is SetEnvVar
}

/// The paths backed up by the first `i` steps, in order.
pub open spec fn backups_upto(steps: Seq<StepView>, i: int) -> Seq<Seq<char>>
    decreases i,
{
    if i <= 0 {
        seq![]
    } else {
        match steps[i - 1] {
            StepView::BackupFile { path } => backups_upto(steps, i - 1).push(path),
            _ => backups_upto(steps, i - 1),
        }
    }
}

proof fn lemma_backups_upto(steps: Seq<StepView>, i: int, p: Seq<char>)
    requires
        0 <= i <= steps.len(),
    ensures
        has_path(backups_upto(steps, i), p) <==> backed_up_before(steps, i, p),
    decreases i,
{
    if i > 0 {
        lemma_backups_upto(steps, i - 1, p);
        let b = backups_upto(steps, i - 1);
        if backed_up_before(steps, i, p) {
            let j = choose|j: int| 0 <= j < i && #[trigger] backs_up(steps[j], p);
            if j < i - 1 {
                assert(backed_up_before(steps, i - 1, p));
                let k = choose|k: int| 0 <= k < b.len() && same_path(#[trigger] b[k], p);
                match steps[i - 1] {
                    StepView::BackupFile { path } => {
                        assert(b.push(path)[k] == b[k]);
                    },
                    _ => {},
                }
            } else {
                match steps[i - 1] {
                    StepView::BackupFile { path } => {
                        assert(b.push(path)[b.len() as int] == path);
                    },
                    _ => {},
                }
            }
        }
        if has_path(backups_upto(steps, i), p) {
            match steps[i - 1] {
                StepView::BackupFile { path } => {
                    let bb = b.push(path);
                    let k = choose|k: int| 0 <= k < bb.len() && same_path(#[trigger] bb[k], p);
                    if k < b.len() {
                        assert(bb[k] == b[k]);
                        assert(has_path(b, p));
                        let j = choose|j: int| 0 <= j < i - 1 && #[trigger] backs_up(steps[j], p);
                        assert(backs_up(steps[j], p));
                    } else {
                        assert(backs_up(steps[i - 1], p));
                    }
                },
                _ => {
                    assert(has_path(b, p));
                    let j = choose|j: int| 0 <= j < i - 1 && #[trigger] backs_up(steps[j], p);
                    assert(backs_up(steps[j], p));
                },
            }
        }
    }
}

fn chars_eq(a: &Vec<char>, b: &Vec<char>) -> (r: bool)
    ensures
        r == (a@ == b@),
{
    if a.len() != b.len() {
        return false;
    }
    let mut i: usize = 0;
    while i < a.len()
        invariant
            i <= a.len(),
            a.len() == b.len(),
            forall|j: int| 0 <= j < i ==> a@[j] == b@[j],
        decreases a.len() - i,
    {
        if a[i] != b[i] {
            return false;
        }
        i += 1;
    }
    assert(a@ =~= b@);
    true
}

/// A path's `PathBuf` parts: rooted or not, and its kept components.
fn path_parts(p: &str) -> (r: (bool, Vec<Vec<char>>))
    ensures
        (r.0, views(r.1@)) == path_norm(p@),
{
    let c = chars_of(p);
    let rooted = c.len() > 0 && c[0] == '/';
    let segs = split_char_exec(&c, '/');
    let ghost sv = views(segs@);
    let mut out: Vec<Vec<char>> = Vec::new();
    let mut i: usize = 0;
    assert(sv.take(0) =~= Seq::<Seq<char>>::empty());
    assert(views(out@) =~= Seq::<Seq<char>>::empty());
    while i < segs.len()
        invariant
            i <= segs.len(),
            sv == views(segs@),
            views(out@) == kept_parts(sv.take(i as int), !rooted),
        decreases segs.len() - i,
    {
        assert(sv.take(i + 1).drop_last() =~= sv.take(i as int));
        assert(sv.take(i + 1).last() == segs@[i as int]@);
        let seg = &segs[i];
        let dot = seg.len() == 1 && seg[0] == '.';
        assert(dot == (segs@[i as int]@ == seq!['.'])) by {
            if segs@[i as int]@ == seq!['.'] {
                assert(segs@[i as int]@[0] == '.');
            }
            if dot {
                assert(segs@[i as int]@ =~= seq!['.']);
            }
        }
        if seg.len() > 0 && (!dot || (i == 0 && !rooted)) {
            let ghost before = views(out@);
            out.push(seg.clone());
            assert(views(out@) =~= before.push(segs@[i as int]@));
        }
        i += 1;
    }
    assert(sv.take(segs.len() as int) =~= sv);
    (rooted, out)
}

/// Whether the two paths have the same parts.
fn parts_eq(a: &(bool, Vec<Vec<char>>), b: &(bool, Vec<Vec<char>>)) -> (r: bool)
    ensures
        r == ((a.0, views(a.1@)) == (b.0, views(b.1@))),
{
    if a.0 != b.0 || a.1.len() != b.1.len() {
        proof {
            if a.1.len() != b.1.len() {
                assert(views(a.1@).len() != views(b.1@).len());
            }
        }
        return false;
    }
    let mut i: usize = 0;
    while i < a.1.len()
        invariant
            i <= a.1.len(),
            a.1.len() == b.1.len(),
            forall|j: int| 0 <= j < i ==> a.1@[j]@ == b.1@[j]@,
        decreases a.1.len() - i,
    {
        if !chars_eq(&a.1[i], &b.1[i]) {
            assert(views(a.1@)[i as int] != views(b.1@)[i as int]);
            return false;
        }
        i += 1;
    }
    assert(views(a.1@) =~= views(b.1@));
    true
}

/// Whether some path of `v` names the same file as `s`.
fn contains_path(v: &Vec<String>, s: &String) -> (b: bool)
    ensures
        b == has_path(string_views(v@), s@),
{
    let target = path_parts(s.as_str());
    let mut i: usize = 0;
    while i < v.len()
        invariant
            i <= v.len(),
            (target.0, views(target.1@)) == path_norm(s@),
            forall|j: int| 0 <= j < i ==> !same_path(#[trigger] string_views(v@)[j], s@),
        decreases v.len() - i,
    {
        let q = path_parts(v[i].as_str());
        if parts_eq(&q, &target) {
            assert(same_path(string_views(v@)[i as int], s@));
            return true;
        }
        assert(!same_path(string_views(v@)[i as int], s@));
        i += 1;
    }
    false
}

fn require_backup(idx: usize, step: &Step, backed_up: &Vec<String>, target: String) -> (r: Result<(), PlanError>)
    ensures
        match r {
            Ok(()) => has_path(string_views(backed_up@), target@),
            Err(PlanError::MissingBackup { index, kind, target: t }) => {
                &&& !has_path(string_views(backed_up@), target@)
                &&& index == idx
                &&& kind@ == step_kind(step@)
                &&& t@ == target@
            },
            Err(_) => false,
        },
{
    if contains_path(backed_up, &target) {
        return Ok(());
    }
    Err(PlanError::MissingBackup { index: idx, kind: step.kind(), target })
}

/// Checks that every step changing a file (setting or unsetting an env
/// var, writing a file) comes after a backup of that same path, env files
/// resolved against the planner's home, and that the plan sets at least
/// one env var. The first step without its backup is reported; a plan
/// whose backups are all in place but that sets no env var is refused
/// with `NoEnvVars`.
pub fn validate_plan(plan: &Plan) -> (r: Result<(), PlanError>)
    ensures
        r is Ok <==> plan_valid(steps_view(plan.steps@), home_dir()) && sets_env_var(steps_view(plan.steps@)),
        match r {
            Ok(()) => true,
            Err(PlanError::MissingBackup { index, kind, target }) => {
                let sv = steps_view(plan.steps@);
                &&& index < sv.len()
                &&& !step_ok(sv, index as int, home_dir())
                &&& forall|j: int| 0 <= j < index ==> #[trigger] step_ok(sv, j, home_dir())
                &&& kind@ == step_kind(sv[index as int])
                &&& step_target(sv[index as int], home_dir()) == Some(target@)
            },
            Err(PlanError::NoEnvVars) => {
                &&& plan_valid(steps_view(plan.steps@), home_dir())
                &&& !sets_env_var(steps_view(plan.steps@))
            },
            Err(_) => false,
        },
{
    let ghost sv = steps_view(plan.steps@);
    let home = planner_home();
    let mut backed_up: Vec<String> = Vec::new();
    let mut has_env = false;
    let mut idx: usize = 0;
    while idx < plan.steps.len()
        invariant
            idx <= plan.steps.len(),
            sv == steps_view(plan.steps@),
            home@ == home_dir(),
            string_views(backed_up@) == backups_upto(sv, idx as int),
            forall|j: int| 0 <= j < idx ==> #[trigger] step_ok(sv, j, home_dir()),
            has_env <==> exists|j: int| 0 <= j < idx && #[trigger] sv[j] is SetEnvVar,
        decreases plan.steps.len() - idx,
    {
        let step = &plan.steps[idx];
        assert(sv[idx as int] == step@);
        proof {
            lemma_backups_upto(sv, idx as int, Seq::empty());
        }
        match step {
            Step::BackupFile { path } => {
                let ghost before = string_views(backed_up@);
                backed_up.push(path.clone());
                assert(string_views(backed_up@) =~= before.push(path@));
            },
            Step::SetEnvVar { file, .. } | Step::UnsetEnvVar { file, .. } => {
                if matches!(step, Step::SetEnvVar { .. }) {
                    has_env = true;
                }
                let target = file.path(home.as_str());
                proof {
                    lemma_backups_upto(sv, idx as int, target@);
                }
                let res = require_backup(idx, step, &backed_up, target);
                if res.is_err() {
                    assert(!step_ok(sv, idx as int, home_dir()));
                    return res;
                }
            },
            Step::WriteFile { path, .. } => {
                proof {
                    lemma_backups_upto(sv, idx as int, path@);
                }
                let res = require_backup(idx, step, &backed_up, path.clone());
                if res.is_err() {
                    assert(!step_ok(sv, idx as int, home_dir()));
                    return res;
                }
            },
            _ => {},
        }
        assert(step_ok(sv, idx as int, home_dir()));
        assert(string_views(backed_up@) =~= backups_upto(sv, idx + 1));
        assert(has_env <==> exists|j: int| 0 <= j < idx + 1 && #[trigger] sv[j] is SetEnvVar);
        idx += 1;
    }
    if !has_env {
        return Err(PlanError::NoEnvVars);
    }
    Ok(())
}

// ------------------------------------------------------------ the plans

/// What the planner decided, before it is wrapped into a plan.
pub struct PlannedSteps {
    pub steps: Vec<Step>,
    pub estimated_duration_secs: u64,
    pub requires_sudo: bool,
    pub requires_logout: bool,
}

pub open spec fn backup_of(p: Seq<char>) -> StepView {
    StepView::BackupFile { path: p }
}

pub open spec fn set_etc(k: Seq<char>, v: Seq<char>) -> StepView {
    StepView::SetEnvVar { file: EnvFileView::EtcEnvironment, key: k, value: v }
}

pub open spec fn fcitx5_profile_path() -> Seq<char> {
    path_join(home_dir(), ".config/fcitx5/profile"@)
}

/// The Fcitx5 profile written on install: a US keyboard plus the engine,
/// with the engine as the default input method.
pub open spec fn fcitx5_profile_text(e: Engine) -> Seq<char> {
    "[Groups/0]\nName=Default\nDefault Layout=us\nDefaultIM="@ + engine_name(e)
        + "\n\n[Groups/0/Items/0]\nName=keyboard-us\nLayout=\n\n[Groups/0/Items/1]\nName="@
        + engine_name(e) + "\nLayout=\n\n[GroupOrder]\n0=Default\n"@
}

pub open spec fn fcitx5_engine_package(e: Engine) -> Seq<char> {
    match e {
        Engine::Bamboo => "fcitx5-bamboo"@,
        Engine::Unikey => "fcitx5-unikey"@,
    }
}

pub open spec fn fcitx5_packages(e: Engine) -> Seq<Seq<char>> {
    seq![
        "fcitx5"@,
        "fcitx5-frontend-gtk3"@,
        "fcitx5-frontend-gtk4"@,
        "fcitx5-frontend-qt5"@,
        "fcitx5-module-xorg"@,
        fcitx5_engine_package(e),
    ]
}

pub open spec fn fcitx5_env() -> Seq<(Seq<char>, Seq<char>)> {
    seq![
        ("GTK_IM_MODULE"@, "fcitx"@),
        ("QT_IM_MODULE"@, "fcitx"@),
        ("XMODIFIERS"@, "@im=fcitx"@),
        ("SDL_IM_MODULE"@, "fcitx"@),
        ("GLFW_IM_MODULE"@, "ibus"@),
    ]
}

pub open spec fn env_steps(pairs: Seq<(Seq<char>, Seq<char>)>) -> Seq<StepView> {
    Seq::new(pairs.len(), |i: int| set_etc(pairs[i].0, pairs[i].1))
}

pub open spec fn fcitx5_done_message() -> Seq<char> {
    "Hoàn tất. Hãy logout và login lại để các biến môi trường IM có hiệu lực, sau đó chạy `vietime-installer verify`."@
}

/// The Fcitx5 install steps on a Debian-family host, in order: backups,
/// packages, `im-config`, the IM env vars, the profile, the services
/// (IBus stopped only where it was the active framework), the checks and
/// the closing prompt.
pub open spec fn fcitx5_steps(active: ActiveFramework, e: Engine) -> Seq<StepView> {
    seq![
        backup_of("/etc/environment"@),
        backup_of(path_join(home_dir(), ".profile"@)),
        backup_of(fcitx5_profile_path()),
        StepView::InstallPackages { manager: PackageManager::Apt, packages: fcitx5_packages(e) },
        StepView::RunImConfig { mode: "fcitx5"@ },
    ] + env_steps(fcitx5_env()) + seq![
        StepView::WriteFile { path: fcitx5_profile_path(), content: fcitx5_profile_text(e), mode: 0o644 },
        StepView::SystemctlUserEnable { unit: "fcitx5.service"@ },
    ] + (if active == ActiveFramework::Ibus {
        seq![StepView::SystemctlUserDisable { unit: "ibus.service"@ }]
    } else {
        seq![]
    }) + seq![
        StepView::SystemctlUserStart { unit: "fcitx5.service"@ },
        StepView::Verify { check: VerifyCheckView::DaemonRunning { framework: ImFramework::Fcitx5 } },
        StepView::Verify { check: VerifyCheckView::EngineRegistered { name: engine_name(e) } },
        StepView::Verify { check: VerifyCheckView::EnvConsistent },
        StepView::Prompt { message: fcitx5_done_message(), continue_if: PromptCondition::UserYes },
    ]
}

pub open spec fn ibus_engine_package(e: Engine) -> Seq<char> {
    match e {
        Engine::Bamboo => "ibus-bamboo"@,
        Engine::Unikey => "ibus-unikey"@,
    }
}

pub open spec fn ibus_packages(e: Engine) -> Seq<Seq<char>> {
    seq!["ibus"@, "ibus-gtk"@, "ibus-gtk3"@, ibus_engine_package(e)]
}

pub open spec fn ibus_env() -> Seq<(Seq<char>, Seq<char>)> {
    seq![
        ("GTK_IM_MODULE"@, "ibus"@),
        ("QT_IM_MODULE"@, "ibus"@),
        ("XMODIFIERS"@, "@im=ibus"@),
        ("GLFW_IM_MODULE"@, "ibus"@),
    ]
}

pub open spec fn ibus_done_message() -> Seq<char> {
    "Hoàn tất. Hãy logout và login lại, sau đó chạy `vietime-installer verify`."@
}

/// The IBus install steps on a Debian-family host: as for Fcitx5 but
/// without `im-config` or a profile, and Fcitx5 stopped only where it
/// was the active framework.
pub open spec fn ibus_steps(active: ActiveFramework, e: Engine) -> Seq<StepView> {
    seq![
        backup_of("/etc/environment"@),
        backup_of(path_join(home_dir(), ".profile"@)),
        StepView::InstallPackages { manager: PackageManager::Apt, packages: ibus_packages(e) },
    ] + env_steps(ibus_env()) + seq![
        StepView::SystemctlUserEnable { unit: "ibus.service"@ },
    ] + (if active == ActiveFramework::Fcitx5 {
        seq![StepView::SystemctlUserDisable { unit: "fcitx5.service"@ }]
    } else {
        seq![]
    }) + seq![
        StepView::SystemctlUserStart { unit: "ibus.service"@ },
        StepView::Verify { check: VerifyCheckView::DaemonRunning { framework: ImFramework::Ibus } },
        StepView::Verify { check: VerifyCheckView::EngineRegistered { name: engine_name(e) } },
        StepView::Verify { check: VerifyCheckView::EnvConsistent },
        StepView::Prompt { message: ibus_done_message(), continue_if: PromptCondition::UserYes },
    ]
}

/// The Fcitx5 profile written for `engine`.
pub fn default_fcitx5_profile(engine: Engine) -> (s: String)
    ensures
        s@ == fcitx5_profile_text(engine),
{
    let engine_id = match engine {
        Engine::Bamboo => "bamboo",
        Engine::Unikey => "unikey",
    };
    let mut v = chars_of("[Groups/0]\nName=Default\nDefault Layout=us\nDefaultIM=");
    append_str(&mut v, engine_id);
    append_str(&mut v, "\n\n[Groups/0/Items/0]\nName=keyboard-us\nLayout=\n\n[Groups/0/Items/1]\nName=");
    append_str(&mut v, engine_id);
    append_str(&mut v, "\nLayout=\n\n[GroupOrder]\n0=Default\n");
    string_of(&v)
}

fn push_step(steps: &mut Vec<Step>, s: Step)
    ensures
        steps_view(final(steps)@) == steps_view(old(steps)@).push(s@),
{
    let ghost before = steps_view(steps@);
    steps.push(s);
    assert(steps_view(steps@) =~= before.push(s@));
}

/// Appends one `/etc/environment` assignment step per pair.
fn push_env_steps(steps: &mut Vec<Step>, pairs: &Vec<(&'static str, &'static str)>)
    ensures
        steps_view(final(steps)@) == steps_view(old(steps)@) + env_steps(
            Seq::new(pairs@.len(), |i: int| (pairs@[i].0@, pairs@[i].1@)),
        ),
{
    let ghost ps = Seq::new(pairs@.len(), |i: int| (pairs@[i].0@, pairs@[i].1@));
    let mut i: usize = 0;
    while i < pairs.len()
        invariant
            i <= pairs.len(),
            ps == Seq::new(pairs@.len(), |i: int| (pairs@[i].0@, pairs@[i].1@)),
            steps_view(steps@) == steps_view(old(steps)@) + env_steps(ps).take(i as int),
        decreases pairs.len() - i,
    {
        let (k, v) = pairs[i];
        let s = Step::SetEnvVar { file: EnvFile::EtcEnvironment, key: k.to_owned(), value: v.to_owned() };
        push_step(steps, s);
        assert(env_steps(ps).take(i + 1) =~= env_steps(ps).take(i as int).push(set_etc(k@, v@)));
        i += 1;
    }
    assert(env_steps(ps).take(pairs.len() as int) =~= env_steps(ps));
}

fn string_vec(items: &Vec<&'static str>) -> (v: Vec<String>)
    ensures
        string_views(v@) == Seq::new(items@.len(), |i: int| items@[i]@),
{
    let mut v: Vec<String> = Vec::new();
    let mut i: usize = 0;
    while i < items.len()
        invariant
            i <= items.len(),
            string_views(v@) == Seq::new(i as nat, |j: int| items@[j]@),
        decreases items.len() - i,
    {
        let item = items[i].to_owned();
        let ghost before = string_views(v@);
        v.push(item);
        assert(string_views(v@) =~= before.push(items@[i as int]@));
        i += 1;
        assert(string_views(v@) =~= Seq::new(i as nat, |j: int| items@[j]@));
    }
    v
}

/// The Fcitx5 plan body for a Debian-family host.
#[verifier::rlimit(40)]
pub fn plan_install_fcitx5_debian(pre: &PreState, combo: Combo) -> (p: PlannedSteps)
    ensures
        steps_view(p.steps@) == fcitx5_steps(pre.active_framework, combo.engine),
        p.estimated_duration_secs == 45,
        p.requires_sudo,
        p.requires_logout,
{
    let engine_pkg = match combo.engine {
        Engine::Bamboo => "fcitx5-bamboo",
        Engine::Unikey => "fcitx5-unikey",
    };
    let names = vec![
        "fcitx5",
        "fcitx5-frontend-gtk3",
        "fcitx5-frontend-gtk4",
        "fcitx5-frontend-qt5",
        "fcitx5-module-xorg",
        engine_pkg,
    ];
    let packages = string_vec(&names);
    assert(string_views(packages@) =~= fcitx5_packages(combo.engine));
    let home = planner_home();
    let mut steps: Vec<Step> = Vec::new();
    let ghost s0 = steps_view(steps@);
    assert(s0 =~= Seq::<StepView>::empty());

    push_step(&mut steps, Step::BackupFile { path: "/etc/environment".to_owned() });
    push_step(&mut steps, Step::BackupFile { path: crate::model::join_path(home.as_str(), ".profile") });
    push_step(&mut steps, Step::BackupFile { path: crate::model::join_path(home.as_str(), ".config/fcitx5/profile") });
    push_step(&mut steps, Step::InstallPackages { manager: PackageManager::Apt, packages });
    push_step(&mut steps, Step::RunImConfig { mode: "fcitx5".to_owned() });
    let ghost s1 = steps_view(steps@);

    let env_pairs: Vec<(&'static str, &'static str)> = vec![
        ("GTK_IM_MODULE", "fcitx"),
        ("QT_IM_MODULE", "fcitx"),
        ("XMODIFIERS", "@im=fcitx"),
        ("SDL_IM_MODULE", "fcitx"),
        ("GLFW_IM_MODULE", "ibus"),
    ];
    assert(Seq::new(env_pairs@.len(), |i: int| (env_pairs@[i].0@, env_pairs@[i].1@)) =~= fcitx5_env());
    push_env_steps(&mut steps, &env_pairs);
    let ghost s2 = steps_view(steps@);

    push_step(&mut steps, Step::WriteFile {
        path: crate::model::join_path(home.as_str(), ".config/fcitx5/profile"),
        content: default_fcitx5_profile(combo.engine),
        mode: 0o644,
    });
    push_step(&mut steps, Step::SystemctlUserEnable { unit: "fcitx5.service".to_owned() });
    let ghost s3 = steps_view(steps@);
    if pre.active_framework == ActiveFramework::Ibus {
        push_step(&mut steps, Step::SystemctlUserDisable { unit: "ibus.service".to_owned() });
    }
    let ghost s4 = steps_view(steps@);
    push_step(&mut steps, Step::SystemctlUserStart { unit: "fcitx5.service".to_owned() });
    push_step(&mut steps, Step::Verify { check: VerifyCheck::DaemonRunning { framework: ImFramework::Fcitx5 } });
    push_step(&mut steps, Step::Verify { check: VerifyCheck::EngineRegistered { name: combo.engine.as_str().to_owned() } });
    push_step(&mut steps, Step::Verify { check: VerifyCheck::EnvConsistent });
    push_step(&mut steps, Step::Prompt {
        message: "Hoàn tất. Hãy logout và login lại để các biến môi trường IM có hiệu lực, sau đó chạy `vietime-installer verify`.".to_owned(),
        continue_if: PromptCondition::UserYes,
    });
    let ghost s5 = steps_view(steps@);
    assert(s4 =~= s3 + (if pre.active_framework == ActiveFramework::Ibus {
        seq![StepView::SystemctlUserDisable { unit: "ibus.service"@ }]
    } else {
        seq![]
    }));
    assert(s5 =~= fcitx5_steps(pre.active_framework, combo.engine));
    PlannedSteps { steps, estimated_duration_secs: 45, requires_sudo: true, requires_logout: true }
}

/// The IBus plan body for a Debian-family host.
#[verifier::rlimit(40)]
pub fn plan_install_ibus_debian(pre: &PreState, combo: Combo) -> (p: PlannedSteps)
    ensures
        steps_view(p.steps@) == ibus_steps(pre.active_framework, combo.engine),
        p.estimated_duration_secs == 30,
        p.requires_sudo,
        p.requires_logout,
{
    let engine_pkg = match combo.engine {
        Engine::Bamboo => "ibus-bamboo",
        Engine::Unikey => "ibus-unikey",
    };
    let names = vec!["ibus", "ibus-gtk", "ibus-gtk3", engine_pkg];
    let packages = string_vec(&names);
    assert(string_views(packages@) =~= ibus_packages(combo.engine));
    let home = planner_home();
    let mut steps: Vec<Step> = Vec::new();
    let ghost s0 = steps_view(steps@);
    assert(s0 =~= Seq::<StepView>::empty());

    push_step(&mut steps, Step::BackupFile { path: "/etc/environment".to_owned() });
    push_step(&mut steps, Step::BackupFile { path: crate::model::join_path(home.as_str(), ".profile") });
    push_step(&mut steps, Step::InstallPackages { manager: PackageManager::Apt, packages });
    let env_pairs: Vec<(&'static str, &'static str)> = vec![
        ("GTK_IM_MODULE", "ibus"),
        ("QT_IM_MODULE", "ibus"),
        ("XMODIFIERS", "@im=ibus"),
        ("GLFW_IM_MODULE", "ibus"),
    ];
    assert(Seq::new(env_pairs@.len(), |i: int| (env_pairs@[i].0@, env_pairs@[i].1@)) =~= ibus_env());
    push_env_steps(&mut steps, &env_pairs);
    push_step(&mut steps, Step::SystemctlUserEnable { unit: "ibus.service".to_owned() });
    let ghost s3 = steps_view(steps@);
    if pre.active_framework == ActiveFramework::Fcitx5 {
        push_step(&mut steps, Step::SystemctlUserDisable { unit: "fcitx5.service".to_owned() });
    }
    let ghost s4 = steps_view(steps@);
    push_step(&mut steps, Step::SystemctlUserStart { unit: "ibus.service".to_owned() });
    push_step(&mut steps, Step::Verify { check: VerifyCheck::DaemonRunning { framework: ImFramework::Ibus } });
    push_step(&mut steps, Step::Verify { check: VerifyCheck::EngineRegistered { name: combo.engine.as_str().to_owned() } });
    push_step(&mut steps, Step::Verify { check: VerifyCheck::EnvConsistent });
    push_step(&mut steps, Step::Prompt {
        message: "Hoàn tất. Hãy logout và login lại, sau đó chạy `vietime-installer verify`.".to_owned(),
        continue_if: PromptCondition::UserYes,
    });
    let ghost s5 = steps_view(steps@);
    assert(s4 =~= s3 + (if pre.active_framework == ActiveFramework::Fcitx5 {
        seq![StepView::SystemctlUserDisable { unit: "fcitx5.service"@ }]
    } else {
        seq![]
    }));
    assert(s5 =~= ibus_steps(pre.active_framework, combo.engine));
    PlannedSteps { steps, estimated_duration_secs: 30, requires_sudo: true, requires_logout: true }
}

/// Every Fcitx5 install plan backs up each file before it changes it.
pub proof fn lemma_fcitx5_steps_valid(active: ActiveFramework, e: Engine)
    ensures
        plan_valid(fcitx5_steps(active, e), home_dir()),
        sets_env_var(fcitx5_steps(active, e)),
{
    let st = fcitx5_steps(active, e);
    let n = st.len();
    assert(st[5] == env_steps(fcitx5_env())[0]);
    assert(st[0] == backup_of("/etc/environment"@));
    assert(st[2] == backup_of(fcitx5_profile_path()));
    assert forall|i: int| 0 <= i < n implies #[trigger] step_ok(st, i, home_dir()) by {
        if 5 <= i < 10 {
            assert(st[i] == env_steps(fcitx5_env())[i - 5]);
            assert(backs_up(st[0], "/etc/environment"@));
            assert(backed_up_before(st, i, "/etc/environment"@));
        } else if i == 10 {
            assert(backs_up(st[2], fcitx5_profile_path()));
            assert(backed_up_before(st, i, fcitx5_profile_path()));
        } else if i < 5 {
        } else {
            assert(step_target(st[i], home_dir()) is None);
        }
    }
}

/// Every IBus install plan backs up each file before it changes it.
pub proof fn lemma_ibus_steps_valid(active: ActiveFramework, e: Engine)
    ensures
        plan_valid(ibus_steps(active, e), home_dir()),
        sets_env_var(ibus_steps(active, e)),
{
    let st = ibus_steps(active, e);
    let n = st.len();
    assert(st[3] == env_steps(ibus_env())[0]);
    assert(st[0] == backup_of("/etc/environment"@));
    assert forall|i: int| 0 <= i < n implies #[trigger] step_ok(st, i, home_dir()) by {
        if 3 <= i < 7 {
            assert(st[i] == env_steps(ibus_env())[i - 3]);
            assert(backs_up(st[0], "/etc/environment"@));
            assert(backed_up_before(st, i, "/etc/environment"@));
        } else if i < 3 {
        } else {
            assert(step_target(st[i], home_dir()) is None);
        }
    }
}

/// The package name of an engine for a framework: `<framework>-<engine>`.
pub open spec fn engine_package_name(framework: Seq<char>, e: Engine) -> Seq<char> {
    framework + "-"@ + engine_name(e)
}

/// An install plan installs the package of exactly the engine that was
/// asked for, for the framework that was asked for (`ibus-unikey` for IBus
/// with Unikey, `fcitx5-bamboo` for Fcitx5 with Bamboo, ...), never the
/// other engine's, and checks afterwards that this very engine is
/// registered.
pub proof fn law_install_installs_requested_engine(pre: PreState, combo: Combo)
    requires
        install_steps(pre, combo) is Some,
    ensures
        ({
            let st = install_steps(pre, combo)->0;
            let fw: Seq<char> = if combo.framework == ImFramework::Ibus { "ibus"@ } else { "fcitx5"@ };
            &&& exists|i: int| 0 <= i < st.len() && (#[trigger] st[i] matches StepView::InstallPackages { packages, .. }
                && packages.contains(engine_package_name(fw, combo.engine))
                && forall|e: Engine| e != combo.engine ==> !packages.contains(#[trigger] engine_package_name(fw, e)))
            &&& exists|j: int| 0 <= j < st.len() && #[trigger] st[j] == (StepView::Verify {
                check: VerifyCheckView::EngineRegistered { name: engine_name(combo.engine) },
            })
        }),
{
    reveal_strlit("ibus");
    reveal_strlit("fcitx5");
    reveal_strlit("-");
    reveal_strlit("bamboo");
    reveal_strlit("unikey");
    reveal_strlit("ibus-bamboo");
    reveal_strlit("ibus-unikey");
    reveal_strlit("fcitx5-bamboo");
    reveal_strlit("fcitx5-unikey");
    reveal_strlit("ibus-gtk");
    reveal_strlit("ibus-gtk3");
    reveal_strlit("fcitx5-frontend-gtk3");
    reveal_strlit("fcitx5-frontend-gtk4");
    reveal_strlit("fcitx5-frontend-qt5");
    reveal_strlit("fcitx5-module-xorg");
    let st = install_steps(pre, combo)->0;
    let e = combo.engine;
    if combo.framework == ImFramework::Ibus {
        let ps = ibus_packages(e);
        assert(engine_package_name("ibus"@, Engine::Bamboo) =~= "ibus-bamboo"@);
        assert(engine_package_name("ibus"@, Engine::Unikey) =~= "ibus-unikey"@);
        assert(st[2] == (StepView::InstallPackages { manager: PackageManager::Apt, packages: ps }));
        assert(ps[3] == engine_package_name("ibus"@, e));
        assert forall|e2: Engine| e2 != e implies !ps.contains(#[trigger] engine_package_name("ibus"@, e2)) by {
            if ps.contains(engine_package_name("ibus"@, e2)) {
                let k = choose|k: int| 0 <= k < ps.len() && ps[k] == engine_package_name("ibus"@, e2);
                assert(ps[k].len() == engine_package_name("ibus"@, e2).len());
                assert(ps[k][5] == engine_package_name("ibus"@, e2)[5]);
            }
        }
        let n = st.len();
        assert(st[n - 3] == (StepView::Verify { check: VerifyCheckView::EngineRegistered { name: engine_name(e) } }));
    } else {
        let ps = fcitx5_packages(e);
        assert(engine_package_name("fcitx5"@, Engine::Bamboo) =~= "fcitx5-bamboo"@);
        assert(engine_package_name("fcitx5"@, Engine::Unikey) =~= "fcitx5-unikey"@);
        assert(st[3] == (StepView::InstallPackages { manager: PackageManager::Apt, packages: ps }));
        assert(ps[5] == engine_package_name("fcitx5"@, e));
        assert forall|e2: Engine| e2 != e implies !ps.contains(#[trigger] engine_package_name("fcitx5"@, e2)) by {
            if ps.contains(engine_package_name("fcitx5"@, e2)) {
                let k = choose|k: int| 0 <= k < ps.len() && ps[k] == engine_package_name("fcitx5"@, e2);
                assert(ps[k].len() == engine_package_name("fcitx5"@, e2).len());
                assert(ps[k][7] == engine_package_name("fcitx5"@, e2)[7]);
            }
        }
        let n = st.len();
        assert(st[n - 3] == (StepView::Verify { check: VerifyCheckView::EngineRegistered { name: engine_name(e) } }));
    }
}

/// The steps an install of `combo` gets on a host, or `None` where the
/// combo is not supported there.
pub open spec fn install_steps(pre: PreState, combo: Combo) -> Option<Seq<StepView>> {
    if pre.distro.family != DistroFamily::Debian {
        None
    } else {
        match combo.framework {
            ImFramework::Fcitx5 => Some(fcitx5_steps(pre.active_framework, combo.engine)),
            ImFramework::Ibus => Some(ibus_steps(pre.active_framework, combo.engine)),
            ImFramework::NoFramework => None,
        }
    }
}

/// Only Debian-family hosts are planned for, and only for a real
/// framework.
pub fn plan_install(pre: &PreState, combo: Combo) -> (r: Result<PlannedSteps, PlanError>)
    ensures
        match r {
            Ok(p) => {
                &&& install_steps(*pre, combo) == Some(steps_view(p.steps@))
                &&& p.estimated_duration_secs == (if combo.framework == ImFramework::Fcitx5 { 45u64 } else { 30u64 })
                &&& p.requires_sudo
                &&& p.requires_logout
            },
            Err(PlanError::UnsupportedCombo { combo: c, family }) => {
                &&& install_steps(*pre, combo) is None
                &&& c == combo
                &&& family == pre.distro.family
            },
            Err(_) => false,
        },
{
    if !pre.distro.is_family(DistroFamily::Debian) {
        return Err(PlanError::UnsupportedCombo { combo, family: pre.distro.family });
    }
    match combo.framework {
        ImFramework::Fcitx5 => Ok(plan_install_fcitx5_debian(pre, combo)),
        ImFramework::Ibus => Ok(plan_install_ibus_debian(pre, combo)),
        ImFramework::NoFramework => Err(PlanError::UnsupportedCombo { combo, family: pre.distro.family }),
    }
}

/// Builds the plan for `goal`. Installs are planned as `install_steps`
/// says, under a fresh id and timestamp; uninstall and switch have no
/// planner yet. A returned plan always passes `validate_plan`.
pub fn plan(pre: PreState, goal: Goal) -> (r: Result<Plan, PlanError>)
    ensures
        match goal {
            Goal::Install { combo } => match install_steps(pre, combo) {
                Some(st) => r matches Ok(p) && {
                    &&& p.goal == goal
                    &&& p.pre_state == pre
                    &&& p.schema_version == crate::model::PLAN_SCHEMA_VERSION
                    &&& steps_view(p.steps@) == st
                    &&& p.estimated_duration_secs == (if combo.framework == ImFramework::Fcitx5 { 45u64 } else { 30u64 })
                    &&& p.requires_sudo
                    &&& p.requires_logout
                    &&& plan_valid(st, home_dir())
                    &&& sets_env_var(st)
                },
                None => r matches Err(PlanError::UnsupportedCombo { combo: c, family })
                    && c == combo && family == pre.distro.family,
            },
            Goal::Uninstall { .. } => r matches Err(PlanError::UnimplementedGoal { goal: g, ticket })
                && g@ == "uninstall"@ && ticket@ == "INS-44 (tasks/phase-2-installer.md Week 5)"@,
            Goal::Switch { .. } => r matches Err(PlanError::UnimplementedGoal { goal: g, ticket })
                && g@ == "switch"@ && ticket@ == "INS-60 (tasks/phase-2-installer.md Week 7)"@,
        },
{
    let planned = match &goal {
        Goal::Install { combo } => {
            let res = plan_install(&pre, *combo);
            match res {
                Ok(p) => p,
                Err(e) => {
                    return Err(e);
                },
            }
        },
        Goal::Uninstall { .. } => {
            return Err(PlanError::UnimplementedGoal {
                goal: "uninstall",
                ticket: "INS-44 (tasks/phase-2-installer.md Week 5)",
            });
        },
        Goal::Switch { .. } => {
            return Err(PlanError::UnimplementedGoal {
                goal: "switch",
                ticket: "INS-60 (tasks/phase-2-installer.md Week 7)",
            });
        },
    };
    let ghost g = goal;
    let ghost pr = pre;
    let mut out = Plan::new_skeleton(goal, pre);
    out.steps = planned.steps;
    out.estimated_duration_secs = planned.estimated_duration_secs;
    out.requires_sudo = planned.requires_sudo;
    out.requires_logout = planned.requires_logout;
    proof {
        match g {
            Goal::Install { combo } => {
                lemma_fcitx5_steps_valid(pr.active_framework, combo.engine);
                lemma_ibus_steps_valid(pr.active_framework, combo.engine);
            },
            _ => {},
        }
    }
    let v = validate_plan(&out);
    match v {
        Ok(()) => Ok(out),
        Err(e) => Err(e),
    }
}

} // verus!
