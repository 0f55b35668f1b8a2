//! The executor's decisions: how a run is configured, what each step
//! records, what a prompt does, which env-file text gets written, and
//! the exact rollback a list of artifacts calls for. The caller performs
//! the I/O these decisions ask for.
use crate::envfile::{
    render_spec, spec_parse, EnvFileDoc, EnvFileDocView, EnvFileError, EnvFileErrorView, Format,
};
use crate::managed::{pairs_map, sorted};
use crate::model::{step_kind, EnvFile, EnvFileView, PackageManager, Step};
use crate::packageops::Sudo;
use crate::snapshot::{Artifact, SnapshotError};
use crate::sudo::{PreflightMode, SudoError};
use crate::text::{append_str, chars_of, string_of, string_views};
use vstd::prelude::*;

verus! {

/// How a plan is run.
#[derive(Debug, Clone, Copy, PartialEq, Eq, Structural)]
pub enum Mode {
    /// Change the system.
    Live,
    /// Record what would be done, change nothing.
    DryRun,
    /// Change the system but never prompt.
    Unattended,
}

impl Mode {
    /// Whether nothing may be changed.
    pub fn is_dry_run(self) -> (b: bool)
        ensures
            b == (self == Mode::DryRun),
    {
        matches!(self, Mode::DryRun)
    }

    /// Only a live run may prompt for a password.
    pub fn preflight_mode(self) -> (m: PreflightMode)
        ensures
            m == (if self == Mode::Live {
                PreflightMode::Interactive
            } else {
                PreflightMode::Unattended
            }),
    {
        match self {
            Mode::Unattended | Mode::DryRun => PreflightMode::Unattended,
            Mode::Live => PreflightMode::Interactive,
        }
    }
}

/// Why a run failed.
#[derive(Debug)]
pub enum ExecError {
    Step { index: usize, kind: &'static str, source: anyhow::Error },
    Sudo(SudoError),
    Snapshot(SnapshotError),
    UserAborted { index: usize },
    Interrupted { index: usize },
    UnsupportedManager(PackageManager),
    VerifyFailed { reason: String },
}

/// The snapshot root under a home: `$XDG_CONFIG_HOME/vietime/snapshots`
/// where that is set, else `<home>/.config/vietime/snapshots`.
pub open spec fn default_snapshots_root(home: Seq<char>, xdg: Option<Seq<char>>) -> Seq<char> {
    let config = match xdg {
        Some(x) => x,
        None => crate::model::path_join(home, ".config"@),
    };
    crate::model::path_join(crate::model::path_join(config, "vietime"@), "snapshots"@)
}

/// Where snapshots live by default for a user.
pub fn default_snapshots_root_for(home: &str, xdg_config_home: Option<&str>) -> (r: String)
    ensures
        r@ == default_snapshots_root(
            home@,
            match xdg_config_home {
                Some(x) => Some(x@),
                None => None,
            },
        ),
{
    let config = match xdg_config_home {
        Some(x) => x.to_owned(),
        None => crate::model::join_path(home, ".config"),
    };
    let v = crate::model::join_path(config.as_str(), "vietime");
    crate::model::join_path(v.as_str(), "snapshots")
}

/// The run's settings.
#[derive(Debug, Clone)]
pub struct ExecConfig {
    pub mode: Mode,
    /// The home env files resolve against.
    pub home: String,
    /// Where snapshots are kept.
    pub snapshots_root: String,
    /// `--yes`: accept prompts that ask for confirmation.
    pub assume_yes: bool,
    /// The free space the snapshot root must have.
    pub min_free_bytes: u64,
}

impl ExecConfig {
    /// The default settings for `mode` and a home directory (`/tmp` where
    /// the caller found none): snapshots under the user's default root,
    /// no `--yes`, ten MiB of free space required.
    pub fn for_home(mode: Mode, home: String, xdg_config_home: Option<&str>) -> (c: ExecConfig)
        ensures
            c.mode == mode,
            c.home@ == home@,
            c.snapshots_root@ == default_snapshots_root(
                home@,
                match xdg_config_home {
                    Some(x) => Some(x@),
                    None => None,
                },
            ),
            !c.assume_yes,
            c.min_free_bytes == 10 * 1024 * 1024,
    {
        let snapshots_root = default_snapshots_root_for(home.as_str(), xdg_config_home);
        ExecConfig { mode, home, snapshots_root, assume_yes: false, min_free_bytes: 10 * 1024 * 1024 }
    }

    pub fn with_home(self, home: String) -> (c: ExecConfig)
        ensures
            c == (ExecConfig { home, ..self }),
    {
        let mut c = self;
        c.home = home;
        c
    }

    pub fn with_snapshots_root(self, root: String) -> (c: ExecConfig)
        ensures
            c == (ExecConfig { snapshots_root: root, ..self }),
    {
        let mut c = self;
        c.snapshots_root = root;
        c
    }

    pub fn with_assume_yes(self, yes: bool) -> (c: ExecConfig)
        ensures
            c == (ExecConfig { assume_yes: yes, ..self }),
    {
        let mut c = self;
        c.assume_yes = yes;
        c
    }
}

/// What a successful run reports.
#[derive(Debug)]
pub struct RunOutcome {
    pub snapshot_id: String,
    pub steps_executed: usize,
    pub dry_run: bool,
}

/// `~/.profile` takes `export` lines; every other env file plain ones.
pub fn format_for(file: &EnvFile) -> (f: Format)
    ensures
        f == (if file@ == EnvFileView::HomeProfile {
            Format::PosixShellExport
        } else {
            Format::KeyValue
        }),
{
    match file {
        EnvFile::HomeProfile => Format::PosixShellExport,
        _ => Format::KeyValue,
    }
}

pub open spec fn manager_name(m: PackageManager) -> Seq<char> {
    match m {
        PackageManager::Apt => "apt"@,
        PackageManager::Dnf => "dnf"@,
        PackageManager::Pacman => "pacman"@,
        PackageManager::Zypper => "zypper"@,
        PackageManager::Xbps => "xbps"@,
        PackageManager::Emerge => "emerge"@,
    }
}

pub open spec fn manager_from_name(s: Seq<char>) -> Option<PackageManager> {
    if s == "apt"@ {
        Some(PackageManager::Apt)
    } else if s == "dnf"@ {
        Some(PackageManager::Dnf)
    } else if s == "pacman"@ {
        Some(PackageManager::Pacman)
    } else if s == "zypper"@ {
        Some(PackageManager::Zypper)
    } else if s == "xbps"@ {
        Some(PackageManager::Xbps)
    } else if s == "emerge"@ {
        Some(PackageManager::Emerge)
    } else {
        None
    }
}

/// The name a package manager is recorded under.
pub fn manager_tag(m: PackageManager) -> (s: &'static str)
    ensures
        s@ == manager_name(m),
{
    match m {
        PackageManager::Apt => "apt",
        PackageManager::Dnf => "dnf",
        PackageManager::Pacman => "pacman",
        PackageManager::Zypper => "zypper",
        PackageManager::Xbps => "xbps",
        PackageManager::Emerge => "emerge",
    }
}

/// The package manager a recorded name stands for.
pub fn parse_manager_tag(s: &str) -> (r: Option<PackageManager>)
    ensures
        r == manager_from_name(s@),
{
    let v = chars_of(s);
    if crate::text::eq_str(&v, "apt") {
        Some(PackageManager::Apt)
    } else if crate::text::eq_str(&v, "dnf") {
        Some(PackageManager::Dnf)
    } else if crate::text::eq_str(&v, "pacman") {
        Some(PackageManager::Pacman)
    } else if crate::text::eq_str(&v, "zypper") {
        Some(PackageManager::Zypper)
    } else if crate::text::eq_str(&v, "xbps") {
        Some(PackageManager::Xbps)
    } else if crate::text::eq_str(&v, "emerge") {
        Some(PackageManager::Emerge)
    } else {
        None
    }
}

/// Reading back the name a package manager was recorded under gives that
/// package manager.
pub proof fn law_manager_tag_roundtrip(m: PackageManager)
    ensures
        manager_from_name(manager_name(m)) == Some(m),
{
    reveal_strlit("apt");
    reveal_strlit("dnf");
    reveal_strlit("pacman");
    reveal_strlit("zypper");
    reveal_strlit("xbps");
    reveal_strlit("emerge");
    let n = manager_name(m);
    match m {
        PackageManager::Apt => {},
        PackageManager::Dnf => {
            assert(n != "apt"@) by { assert(n[0] != "apt"@[0]); }
        },
        PackageManager::Pacman => {
            assert(n != "apt"@) by { assert(n.len() != "apt"@.len()); }
            assert(n != "dnf"@) by { assert(n.len() != "dnf"@.len()); }
        },
        PackageManager::Zypper => {
            assert(n != "apt"@) by { assert(n.len() != "apt"@.len()); }
            assert(n != "dnf"@) by { assert(n.len() != "dnf"@.len()); }
            assert(n != "pacman"@) by { assert(n[0] != "pacman"@[0]); }
        },
        PackageManager::Xbps => {
            assert(n != "apt"@) by { assert(n.len() != "apt"@.len()); }
            assert(n != "dnf"@) by { assert(n.len() != "dnf"@.len()); }
            assert(n != "pacman"@) by { assert(n.len() != "pacman"@.len()); }
            assert(n != "zypper"@) by { assert(n.len() != "zypper"@.len()); }
        },
        PackageManager::Emerge => {
            assert(n != "apt"@) by { assert(n.len() != "apt"@.len()); }
            assert(n != "dnf"@) by { assert(n.len() != "dnf"@.len()); }
            assert(n != "pacman"@) by { assert(n[0] != "pacman"@[0]); }
            assert(n != "zypper"@) by { assert(n[0] != "zypper"@[0]); }
            assert(n != "xbps"@) by { assert(n.len() != "xbps"@.len()); }
        },
    }
}

fn concat_str(a: &str, b: &str) -> (s: String)
    ensures
        s@ == a@ + b@,
{
    let mut v = chars_of(a);
    append_str(&mut v, b);
    string_of(&v)
}

/// A dry run records every step as skipped, under its kind.
pub fn dry_run_artifact(index: usize, step: &Step) -> (a: Artifact)
    ensures
        a matches Artifact::Skipped { step_index, reason } && step_index == index && reason@
            == "dry-run: "@ + step_kind(step@),
{
    Artifact::Skipped { step_index: index, reason: concat_str("dry-run: ", step.kind()) }
}

/// What a prompt step does without asking anyone, or that it must ask.
#[derive(Debug)]
pub enum PromptOutcome {
    Decided(Artifact),
    AskUser,
}

/// A prompt that may go on by itself is skipped; so is one the user
/// accepted in advance with `--yes`, or one met in a dry or unattended
/// run. Only a live run without `--yes` asks.
pub fn prompt_outcome(
    index: usize,
    message: &str,
    continue_if: crate::model::PromptCondition,
    config: &ExecConfig,
) -> (o: PromptOutcome)
    ensures
        continue_if == crate::model::PromptCondition::NonInteractive ==> (o matches PromptOutcome::Decided(
            Artifact::Skipped { step_index, reason },
        ) && step_index == index && reason@ == "prompt (non-interactive): "@ + message@),
        continue_if == crate::model::PromptCondition::UserYes && config.assume_yes ==> (o matches PromptOutcome::Decided(
            Artifact::Skipped { step_index, reason },
        ) && step_index == index && reason@ == "prompt auto-accepted (--yes): "@ + message@),
        continue_if == crate::model::PromptCondition::UserYes && !config.assume_yes && config.mode
            != Mode::Live ==> (o matches PromptOutcome::Decided(Artifact::Skipped { step_index, reason })
            && step_index == index && reason@ == "prompt: "@ + message@),
        o is AskUser <==> (continue_if == crate::model::PromptCondition::UserYes && !config.assume_yes
            && config.mode == Mode::Live),
{
    match continue_if {
        crate::model::PromptCondition::NonInteractive => PromptOutcome::Decided(
            Artifact::Skipped {
                step_index: index,
                reason: concat_str("prompt (non-interactive): ", message),
            },
        ),
        crate::model::PromptCondition::UserYes => {
            if config.assume_yes {
                return PromptOutcome::Decided(
                    Artifact::Skipped {
                        step_index: index,
                        reason: concat_str("prompt auto-accepted (--yes): ", message),
                    },
                );
            }
            if matches!(config.mode, Mode::DryRun | Mode::Unattended) {
                return PromptOutcome::Decided(
                    Artifact::Skipped { step_index: index, reason: concat_str("prompt: ", message) },
                );
            }
            PromptOutcome::AskUser
        },
    }
}

/// The user's answer to a prompt: yes goes on, no aborts the run.
pub fn prompt_answer(index: usize, message: &str, accepted: bool) -> (r: Result<Artifact, ExecError>)
    ensures
        accepted ==> (r matches Ok(Artifact::Skipped { step_index, reason }) && step_index == index
            && reason@ == "prompt accepted: "@ + message@),
        !accepted ==> (r matches Err(ExecError::UserAborted { index: i }) && i == index),
{
    if accepted {
        Ok(Artifact::Skipped { step_index: index, reason: concat_str("prompt accepted: ", message) })
    } else {
        Err(ExecError::UserAborted { index })
    }
}

// ------------------------------------------------------------ packages

/// The packages of `ps` that are not in `present`, in order.
pub open spec fn keep_absent(ps: Seq<Seq<char>>, present: Seq<Seq<char>>) -> Seq<Seq<char>>
    decreases ps.len(),
{
    if ps.len() == 0 {
        seq![]
    } else {
        let r = keep_absent(ps.drop_last(), present);
        if present.contains(ps.last()) {
            r
        } else {
            r.push(ps.last())
        }
    }
}

/// What is kept is exactly what was asked for and not already there.
pub proof fn law_keep_absent(ps: Seq<Seq<char>>, present: Seq<Seq<char>>, x: Seq<char>)
    ensures
        keep_absent(ps, present).contains(x) <==> (ps.contains(x) && !present.contains(x)),
    decreases ps.len(),
{
    if ps.len() > 0 {
        law_keep_absent(ps.drop_last(), present, x);
        let r = keep_absent(ps.drop_last(), present);
        let l = ps.last();
        assert(ps =~= ps.drop_last().push(l));
        if ps.contains(x) && !present.contains(x) {
            let k = choose|k: int| 0 <= k < ps.len() && ps[k] == x;
            if k < ps.len() - 1 {
                assert(ps.drop_last()[k] == x);
            }
        }
        if keep_absent(ps, present).contains(x) {
            if !present.contains(l) {
                let k = choose|k: int| 0 <= k < r.len() + 1 && r.push(l)[k] == x;
                if k < r.len() {
                    assert(r[k] == x);
                }
            }
            if ps.drop_last().contains(x) {
                let k = choose|k: int| 0 <= k < ps.len() - 1 && ps.drop_last()[k] == x;
                assert(ps[k] == x);
            }
        }
        if r.contains(x) {
            let k = choose|k: int| 0 <= k < r.len() && r[k] == x;
            assert(r.push(l)[k] == x);
        }
        if ps.contains(x) && !present.contains(x) && x == l {
            assert(r.push(l)[r.len() as int] == x);
        }
    }
}

fn contains_string(v: &[String], s: &String) -> (b: bool)
    ensures
        b == string_views(v@).contains(s@),
{
    let mut i: usize = 0;
    while i < v.len()
        invariant
            i <= v.len(),
            forall|j: int| 0 <= j < i ==> v@[j]@ != s@,
        decreases v.len() - i,
    {
        if v[i] == *s {
            assert(string_views(v@)[i as int] == s@);
            return true;
        }
        i += 1;
    }
    proof {
        if string_views(v@).contains(s@) {
            let k = choose|k: int| 0 <= k < string_views(v@).len() && string_views(v@)[k] == s@;
            assert(v@[k]@ == s@);
        }
    }
    false
}

/// The requested packages that are not installed yet, in order.
pub fn packages_to_install(packages: &[String], already_present: &[String]) -> (r: Vec<String>)
    ensures
        string_views(r@) == keep_absent(string_views(packages@), string_views(already_present@)),
{
    let ghost ps = string_views(packages@);
    let ghost pr = string_views(already_present@);
    let mut out: Vec<String> = Vec::new();
    let mut i: usize = 0;
    assert(ps.take(0) =~= Seq::<Seq<char>>::empty());
    while i < packages.len()
        invariant
            i <= packages.len(),
            ps == string_views(packages@),
            pr == string_views(already_present@),
            string_views(out@) == keep_absent(ps.take(i as int), pr),
        decreases packages.len() - i,
    {
        assert(ps.take(i + 1).drop_last() =~= ps.take(i as int));
        assert(ps.take(i + 1).last() == packages@[i as int]@);
        if !contains_string(already_present, &packages[i]) {
            let ghost before = string_views(out@);
            out.push(packages[i].clone());
            assert(string_views(out@) =~= before.push(packages@[i as int]@));
        }
        i += 1;
    }
    assert(ps.take(packages.len() as int) =~= ps);
    out
}

/// Only `apt` is driven; any other manager stops the step.
pub fn check_manager(m: PackageManager) -> (r: Result<(), ExecError>)
    ensures
        m == PackageManager::Apt ==> r is Ok,
        m != PackageManager::Apt ==> (r matches Err(ExecError::UnsupportedManager(x)) && x == m),
{
    match m {
        PackageManager::Apt => Ok(()),
        other => Err(ExecError::UnsupportedManager(other)),
    }
}

fn clone_strings(v: &[String]) -> (r: Vec<String>)
    ensures
        string_views(r@) == string_views(v@),
{
    let mut out: Vec<String> = Vec::new();
    let mut i: usize = 0;
    while i < v.len()
        invariant
            i <= v.len(),
            string_views(out@) == string_views(v@).take(i as int),
        decreases v.len() - i,
    {
        let ghost before = string_views(out@);
        out.push(v[i].clone());
        assert(string_views(out@) =~= before.push(v@[i as int]@));
        assert(string_views(v@).take(i + 1) =~= string_views(v@).take(i as int).push(v@[i as int]@));
        i += 1;
    }
    assert(string_views(v@).take(v.len() as int) =~= string_views(v@));
    out
}

/// What an install step records: every requested package, and which of
/// them were there before, so that rollback leaves those alone.
pub fn installed_packages_artifact(
    index: usize,
    manager: PackageManager,
    packages: &[String],
    already_present: Vec<String>,
) -> (a: Artifact)
    ensures
        a matches Artifact::InstalledPackages { step_index, manager: m, packages: ps, already_present: ap }
            && step_index == index && m@ == manager_name(manager) && string_views(ps@)
            == string_views(packages@) && ap@ == already_present@,
{
    Artifact::InstalledPackages {
        step_index: index,
        manager: manager_tag(manager).to_owned(),
        packages: clone_strings(packages),
        already_present,
    }
}

// ------------------------------------------------------------ rollback

/// One thing rollback does.
#[derive(Debug)]
pub enum RollbackAction {
    /// Tell the reporter that the artifact at this index is undone.
    Announce { artifact_index: usize },
    /// Put the backed-up file of the artifact at this index back.
    Restore { artifact_index: usize },
    /// Remove packages the run installed.
    Uninstall { manager: PackageManager, packages: Vec<String> },
    /// `systemctl --user enable`.
    EnableUnit { unit: String },
    /// `systemctl --user disable`.
    DisableUnit { unit: String },
    /// `systemctl --user start`.
    StartUnit { unit: String },
    /// `systemctl --user stop`.
    StopUnit { unit: String },
}

pub enum RollbackView {
    Announce { artifact_index: int },
    Restore { artifact_index: int },
    Uninstall { manager: PackageManager, packages: Seq<Seq<char>> },
    EnableUnit { unit: Seq<char> },
    DisableUnit { unit: Seq<char> },
    StartUnit { unit: Seq<char> },
    StopUnit { unit: Seq<char> },
}

impl View for RollbackAction {
    type V = RollbackView;

    open spec fn view(&self) -> RollbackView {
        match self {
            RollbackAction::Announce { artifact_index } => RollbackView::Announce {
                artifact_index: *artifact_index as int,
            },
            RollbackAction::Restore { artifact_index } => RollbackView::Restore {
                artifact_index: *artifact_index as int,
            },
            RollbackAction::Uninstall { manager, packages } => RollbackView::Uninstall {
                manager: *manager,
                packages: string_views(packages@),
            },
            RollbackAction::EnableUnit { unit } => RollbackView::EnableUnit { unit: unit@ },
            RollbackAction::DisableUnit { unit } => RollbackView::DisableUnit { unit: unit@ },
            RollbackAction::StartUnit { unit } => RollbackView::StartUnit { unit: unit@ },
            RollbackAction::StopUnit { unit } => RollbackView::StopUnit { unit: unit@ },
        }
    }
}

pub open spec fn actions_view(v: Seq<RollbackAction>) -> Seq<RollbackView> {
    Seq::new(v.len(), |i: int| v[i]@)
}

/// How one artifact is undone: a backup is restored; packages the run
/// added (not those already there) are removed where the recorded
/// manager is `apt`; a unit is set back to its recorded state (enabled
/// or disabled, then started or stopped; a state not recorded is left as
/// it is); checks and skips need nothing.
pub open spec fn undo(a: Artifact, k: int) -> Seq<RollbackView> {
    match a {
        Artifact::BackupFile { .. } => seq![RollbackView::Restore { artifact_index: k }],
        Artifact::InstalledPackages { manager, packages, already_present, .. } => {
            let rm = keep_absent(string_views(packages@), string_views(already_present@));
            if rm.len() > 0 && manager_from_name(manager@) == Some(PackageManager::Apt) {
                seq![RollbackView::Uninstall { manager: PackageManager::Apt, packages: rm }]
            } else {
                seq![]
            }
        },
        Artifact::ServiceChange { unit, previous_enabled, previous_active, .. } => (match previous_enabled {
            Some(true) => seq![RollbackView::EnableUnit { unit: unit@ }],
            Some(false) => seq![RollbackView::DisableUnit { unit: unit@ }],
            None => seq![],
        }) + (match previous_active {
            Some(true) => seq![RollbackView::StartUnit { unit: unit@ }],
            Some(false) => seq![RollbackView::StopUnit { unit: unit@ }],
            None => seq![],
        }),
        _ => seq![],
    }
}

/// Rollback of the first `n` artifacts: the last one first.
pub open spec fn rollback_spec(arts: Seq<Artifact>, n: int) -> Seq<RollbackView>
    decreases n,
{
    if n <= 0 {
        seq![]
    } else {
        seq![RollbackView::Announce { artifact_index: n - 1 }] + undo(arts[n - 1], n - 1)
            + rollback_spec(arts, n - 1)
    }
}

fn push_action(v: &mut Vec<RollbackAction>, a: RollbackAction)
    ensures
        actions_view(final(v)@) == actions_view(old(v)@).push(a@),
{
    let ghost before = actions_view(v@);
    v.push(a);
    assert(actions_view(v@) =~= before.push(a@));
}

/// The rollback a run's artifacts call for, newest artifact first, each
/// announced before it is undone.
pub fn rollback_plan(artifacts: &Vec<Artifact>) -> (r: Vec<RollbackAction>)
    ensures
        actions_view(r@) == rollback_spec(artifacts@, artifacts@.len() as int),
{
    let mut out: Vec<RollbackAction> = Vec::new();
    let mut n: usize = artifacts.len();
    assert(actions_view(out@) =~= Seq::<RollbackView>::empty());
    while n > 0
        invariant
            n <= artifacts.len(),
            rollback_spec(artifacts@, artifacts@.len() as int) == actions_view(out@) + rollback_spec(
                artifacts@,
                n as int,
            ),
        decreases n,
    {
        let k = n - 1;
        let ghost start = actions_view(out@);
        push_action(&mut out, RollbackAction::Announce { artifact_index: k });
        match &artifacts[k] {
            Artifact::BackupFile { .. } => {
                push_action(&mut out, RollbackAction::Restore { artifact_index: k });
            },
            Artifact::InstalledPackages { manager, packages, already_present, .. } => {
                let to_remove = packages_to_install(packages.as_slice(), already_present.as_slice());
                if to_remove.len() > 0 {
                    match parse_manager_tag(manager.as_str()) {
                        Some(PackageManager::Apt) => {
                            push_action(
                                &mut out,
                                RollbackAction::Uninstall { manager: PackageManager::Apt, packages: to_remove },
                            );
                        },
                        _ => {},
                    }
                }
            },
            Artifact::ServiceChange { unit, previous_enabled, previous_active, .. } => {
                match previous_enabled {
                    Some(true) => push_action(&mut out, RollbackAction::EnableUnit { unit: unit.clone() }),
                    Some(false) => push_action(&mut out, RollbackAction::DisableUnit { unit: unit.clone() }),
                    None => {},
                }
                match previous_active {
                    Some(true) => push_action(&mut out, RollbackAction::StartUnit { unit: unit.clone() }),
                    Some(false) => push_action(&mut out, RollbackAction::StopUnit { unit: unit.clone() }),
                    None => {},
                }
            },
            _ => {},
        }
        assert(actions_view(out@) =~= start + seq![RollbackView::Announce { artifact_index: k as int }] + undo(artifacts@[k as int], k as int));
        n = k;
    }
    out
}

/// Whatever undoing one artifact calls for appears in the rollback of
/// any run that recorded it.
proof fn lemma_rollback_has_undo(arts: Seq<Artifact>, n: int, k: int, x: RollbackView)
    requires
        0 <= k < n <= arts.len(),
        undo(arts[k], k).contains(x),
    ensures
        rollback_spec(arts, n).contains(x),
    decreases n,
{
    let head = seq![RollbackView::Announce { artifact_index: n - 1 }] + undo(arts[n - 1], n - 1);
    let rest = rollback_spec(arts, n - 1);
    assert(rollback_spec(arts, n) == head + rest);
    if k == n - 1 {
        let j = choose|j: int| 0 <= j < undo(arts[k], k).len() && undo(arts[k], k)[j] == x;
        assert((head + rest)[j + 1] == x);
    } else {
        lemma_rollback_has_undo(arts, n - 1, k, x);
        let j = choose|j: int| 0 <= j < rest.len() && rest[j] == x;
        assert((head + rest)[head.len() + j] == x);
    }
}

/// Rollback sets every changed user unit back to the state recorded
/// before the run: a unit that was enabled is enabled again and one that
/// was disabled is disabled again; a unit that was running is started
/// again and one that was stopped is stopped again.
pub proof fn law_rollback_restores_units(arts: Seq<Artifact>, k: int)
    requires
        0 <= k < arts.len(),
        arts[k] is ServiceChange,
    ensures
        ({
            let r = rollback_spec(arts, arts.len() as int);
            match arts[k] {
                Artifact::ServiceChange { unit, previous_enabled, previous_active, .. } => {
                    &&& previous_enabled == Some(true) ==> r.contains(RollbackView::EnableUnit { unit: unit@ })
                    &&& previous_enabled == Some(false) ==> r.contains(RollbackView::DisableUnit { unit: unit@ })
                    &&& previous_active == Some(true) ==> r.contains(RollbackView::StartUnit { unit: unit@ })
                    &&& previous_active == Some(false) ==> r.contains(RollbackView::StopUnit { unit: unit@ })
                },
                _ => true,
            }
        }),
{
    let n = arts.len() as int;
    match arts[k] {
        Artifact::ServiceChange { unit, previous_enabled, previous_active, .. } => {
            let u = undo(arts[k], k);
            let first: Seq<RollbackView> = match previous_enabled {
                Some(true) => seq![RollbackView::EnableUnit { unit: unit@ }],
                Some(false) => seq![RollbackView::DisableUnit { unit: unit@ }],
                None => seq![],
            };
            let second: Seq<RollbackView> = match previous_active {
                Some(true) => seq![RollbackView::StartUnit { unit: unit@ }],
                Some(false) => seq![RollbackView::StopUnit { unit: unit@ }],
                None => seq![],
            };
            assert(u == first + second);
            if previous_enabled is Some {
                assert(u[0] == first[0]);
                lemma_rollback_has_undo(arts, n, k, first[0]);
            }
            if previous_active is Some {
                assert(u[first.len() as int] == second[0]);
                lemma_rollback_has_undo(arts, n, k, second[0]);
            }
        },
        _ => {},
    }
}

/// Rollback never removes a package that was installed before the run.
pub proof fn law_rollback_spares_present_packages(arts: Seq<Artifact>, i: int, x: Seq<char>)
    requires
        0 <= i < rollback_spec(arts, arts.len() as int).len(),
        rollback_spec(arts, arts.len() as int)[i] matches RollbackView::Uninstall { packages, .. }
            && packages.contains(x),
    ensures
        exists|k: int| 0 <= k < arts.len() && (#[trigger] arts[k] matches Artifact::InstalledPackages {
            packages,
            already_present,
            ..
        } && string_views(packages@).contains(x) && !string_views(already_present@).contains(x)),
{
    lemma_rollback_uninstall(arts, arts.len() as int, i, x);
}

proof fn lemma_rollback_uninstall(arts: Seq<Artifact>, n: int, i: int, x: Seq<char>)
    requires
        0 <= n <= arts.len(),
        0 <= i < rollback_spec(arts, n).len(),
        rollback_spec(arts, n)[i] matches RollbackView::Uninstall { packages, .. } && packages.contains(x),
    ensures
        exists|k: int| 0 <= k < arts.len() && (#[trigger] arts[k] matches Artifact::InstalledPackages {
            packages,
            already_present,
            ..
        } && string_views(packages@).contains(x) && !string_views(already_present@).contains(x)),
    decreases n,
{
    let head = seq![RollbackView::Announce { artifact_index: n - 1 }] + undo(arts[n - 1], n - 1);
    assert(rollback_spec(arts, n) == head + rollback_spec(arts, n - 1));
    if i < head.len() {
        assert(i >= 1);
        let a = arts[n - 1];
        match a {
            Artifact::InstalledPackages { packages, already_present, .. } => {
                let rm = keep_absent(string_views(packages@), string_views(already_present@));
                assert(head[i] == (RollbackView::Uninstall { manager: PackageManager::Apt, packages: rm }));
                law_keep_absent(string_views(packages@), string_views(already_present@), x);
                assert(arts[n - 1] matches Artifact::InstalledPackages { packages, already_present, .. }
                    && string_views(packages@).contains(x) && !string_views(already_present@).contains(x));
            },
            Artifact::ServiceChange { unit, previous_enabled, previous_active, .. } => {
                assert(!(head[i] is Uninstall));
            },
            _ => {
                assert(!(head[i] is Uninstall));
            },
        }
    } else {
        lemma_rollback_uninstall(arts, n - 1, i - head.len(), x);
    }
}

// ------------------------------------------------------------ env files

/// What an env-file step writes.
#[derive(Debug)]
pub enum EnvUpdate {
    /// The file already reads as it should.
    Unchanged,
    /// The file's new text.
    Write(String),
}

/// The document an edit leads to: the parsed file's surrounding text and
/// format kept, its managed block turned into `m`.
pub open spec fn edited_doc(
    p: (Seq<char>, Seq<char>, Seq<(Seq<char>, Seq<char>)>, bool),
    v: EnvFileDocView,
    m: Map<Seq<char>, Seq<char>>,
    format: Format,
) -> bool {
    &&& v.prefix == p.0
    &&& v.suffix == p.1
    &&& sorted(v.entries)
    &&& pairs_map(v.entries) == m
    &&& v.format == format
}

/// Setting `key` to `value` in the env file `current`: the file's text
/// with the key set in its managed block (a block is added where there
/// was none), or `Unchanged` where that is the text already there. A
/// file that does not parse is an error.
pub fn set_env_var_update(current: &str, format: Format, key: &str, value: &str) -> (r: Result<
    EnvUpdate,
    EnvFileError,
>)
    ensures
        r is Err <==> spec_parse(current@, format) is Err,
        match r {
            Err(e) => spec_parse(current@, format) == Err::<(Seq<char>, Seq<char>, Seq<(Seq<char>, Seq<char>)>, bool), EnvFileErrorView>(e@),
            Ok(u) => {
                let p = spec_parse(current@, format)->Ok_0;
                exists|v: EnvFileDocView| {
                    &&& edited_doc(p, v, pairs_map(p.2).insert(key@, value@), format)
                    &&& v.had_block
                    &&& (u is Unchanged <==> render_spec(v) == current@)
                    &&& (u matches EnvUpdate::Write(s) ==> s@ == render_spec(v))
                }
            },
        },
{
    let mut doc = match EnvFileDoc::parse(current, format) {
        Ok(d) => d,
        Err(e) => {
            return Err(e);
        },
    };
    doc.set(key, value);
    let rendered = doc.render();
    proof {
        doc.lemma_wf();
    }
    let cur = current.to_owned();
    if rendered == cur {
        Ok(EnvUpdate::Unchanged)
    } else {
        Ok(EnvUpdate::Write(rendered))
    }
}

/// What unsetting a key does to an env file.
#[derive(Debug)]
pub enum EnvRemoval {
    /// The key was not in the managed block.
    NotPresent,
    /// The file's new text.
    Write(String),
}

/// Removing `key` from the managed block of `current`: the new text, or
/// `NotPresent` where the block has no such key. A file that does not
/// parse is an error.
pub fn unset_env_var_update(current: &str, format: Format, key: &str) -> (r: Result<
    EnvRemoval,
    EnvFileError,
>)
    ensures
        r is Err <==> spec_parse(current@, format) is Err,
        match r {
            Err(e) => spec_parse(current@, format) == Err::<(Seq<char>, Seq<char>, Seq<(Seq<char>, Seq<char>)>, bool), EnvFileErrorView>(e@),
            Ok(u) => {
                let p = spec_parse(current@, format)->Ok_0;
                &&& (u is NotPresent <==> !pairs_map(p.2).contains_key(key@))
                &&& (u matches EnvRemoval::Write(s) ==> exists|v: EnvFileDocView| {
                    &&& edited_doc(p, v, pairs_map(p.2).remove(key@), format)
                    &&& v.had_block == p.3
                    &&& s@ == render_spec(v)
                })
            },
        },
{
    let mut doc = match EnvFileDoc::parse(current, format) {
        Ok(d) => d,
        Err(e) => {
            return Err(e);
        },
    };
    if !doc.unset(key) {
        return Ok(EnvRemoval::NotPresent);
    }
    proof {
        doc.lemma_wf();
    }
    Ok(EnvRemoval::Write(doc.render()))
}

// ------------------------------------------------------------ systemd

/// What `systemctl --user is-enabled` printed, trimmed: enabled (also
/// `enabled-runtime`, `alias`, `static`), disabled (also `masked`,
/// `not-found`), or unknown.
pub open spec fn enabled_state(s: Seq<char>) -> Option<bool> {
    if s == "enabled"@ || s == "enabled-runtime"@ || s == "alias"@ || s == "static"@ {
        Some(true)
    } else if s == "disabled"@ || s == "masked"@ || s == "not-found"@ {
        Some(false)
    } else {
        None
    }
}

/// What `systemctl --user is-active` printed, trimmed: active (also
/// `activating`, `reloading`), inactive (also `failed`, `deactivating`),
/// or unknown.
pub open spec fn active_state(s: Seq<char>) -> Option<bool> {
    if s == "active"@ || s == "activating"@ || s == "reloading"@ {
        Some(true)
    } else if s == "inactive"@ || s == "failed"@ || s == "deactivating"@ {
        Some(false)
    } else {
        None
    }
}

/// Reads `systemctl --user is-enabled` output.
pub fn parse_is_enabled(stdout: &str) -> (r: Option<bool>)
    ensures
        r == enabled_state(crate::text::trim(stdout@)),
{
    let c = chars_of(stdout);
    let t = crate::text::trim_vec(&c);
    if crate::text::eq_str(&t, "enabled") || crate::text::eq_str(&t, "enabled-runtime")
        || crate::text::eq_str(&t, "alias") || crate::text::eq_str(&t, "static") {
        Some(true)
    } else if crate::text::eq_str(&t, "disabled") || crate::text::eq_str(&t, "masked")
        || crate::text::eq_str(&t, "not-found") {
        Some(false)
    } else {
        None
    }
}

/// Reads `systemctl --user is-active` output.
pub fn parse_is_active(stdout: &str) -> (r: Option<bool>)
    ensures
        r == active_state(crate::text::trim(stdout@)),
{
    let c = chars_of(stdout);
    let t = crate::text::trim_vec(&c);
    if crate::text::eq_str(&t, "active") || crate::text::eq_str(&t, "activating")
        || crate::text::eq_str(&t, "reloading") {
        Some(true)
    } else if crate::text::eq_str(&t, "inactive") || crate::text::eq_str(&t, "failed")
        || crate::text::eq_str(&t, "deactivating") {
        Some(false)
    } else {
        None
    }
}

/// What a systemctl step records: the unit's state before the change.
pub fn service_change_artifact(
    index: usize,
    unit: &str,
    previous_enabled: Option<bool>,
    previous_active: Option<bool>,
) -> (a: Artifact)
    ensures
        a matches Artifact::ServiceChange { step_index, unit: u, previous_enabled: pe, previous_active: pa }
            && step_index == index && u@ == unit@ && pe == previous_enabled && pa == previous_active,
{
    Artifact::ServiceChange { step_index: index, unit: unit.to_owned(), previous_enabled, previous_active }
}

// ------------------------------------------------------------ reporting

/// `{n:>2}`: the number right-aligned in two columns.
pub open spec fn pad2(n: nat) -> Seq<char> {
    if n < 10 {
        seq![' '] + crate::text::decimal(n)
    } else {
        crate::text::decimal(n)
    }
}

/// `[ n] ` before a step's line.
fn step_tag(out: &mut Vec<char>, index: usize)
    ensures
        final(out)@ == old(out)@ + seq!['['] + pad2(index as nat) + "] "@,
{
    out.push('[');
    if index < 10 {
        out.push(' ');
    }
    let ghost mid = out@;
    crate::text::push_decimal(out, index);
    append_str(out, "] ");
    proof {
        if index < 10 {
            assert(mid == old(out)@ + seq!['['] + seq![' ']);
        }
    }
    assert(final(out)@ =~= old(out)@ + seq!['['] + pad2(index as nat) + "] "@);
}

/// The lines the executor reports on standard error.
#[derive(Debug, Default, Clone, Copy)]
pub struct StderrReporter;

impl StderrReporter {
    /// `[ i] kind …`
    pub fn step_start_line(&self, index: usize, step: &Step) -> (s: String)
        ensures
            s@ == seq!['['] + pad2(index as nat) + "] "@ + step_kind(step@) + " …"@,
    {
        let mut v: Vec<char> = Vec::new();
        step_tag(&mut v, index);
        append_str(&mut v, step.kind());
        append_str(&mut v, " …");
        string_of(&v)
    }

    /// `[ i] kind done`
    pub fn step_done_line(&self, index: usize, step: &Step) -> (s: String)
        ensures
            s@ == seq!['['] + pad2(index as nat) + "] "@ + step_kind(step@) + " done"@,
    {
        let mut v: Vec<char> = Vec::new();
        step_tag(&mut v, index);
        append_str(&mut v, step.kind());
        append_str(&mut v, " done");
        string_of(&v)
    }

    /// `[ i] kind FAILED: error`
    pub fn step_failed_line(&self, index: usize, step: &Step, err: &str) -> (s: String)
        ensures
            s@ == seq!['['] + pad2(index as nat) + "] "@ + step_kind(step@) + " FAILED: "@ + err@,
    {
        let mut v: Vec<char> = Vec::new();
        step_tag(&mut v, index);
        append_str(&mut v, step.kind());
        append_str(&mut v, " FAILED: ");
        append_str(&mut v, err);
        string_of(&v)
    }

    /// `-- rolling back from step n --`
    pub fn rollback_started_line(&self, from_index: usize) -> (s: String)
        ensures
            s@ == "-- rolling back from step "@ + crate::text::decimal(from_index as nat) + " --"@,
    {
        let mut v = chars_of("-- rolling back from step ");
        crate::text::push_decimal(&mut v, from_index);
        append_str(&mut v, " --");
        string_of(&v)
    }

    /// `[rollback] step i`
    pub fn rollback_step_line(&self, index: usize) -> (s: String)
        ensures
            s@ == "[rollback] step "@ + crate::text::decimal(index as nat),
    {
        let mut v = chars_of("[rollback] step ");
        crate::text::push_decimal(&mut v, index);
        string_of(&v)
    }
}

/// What removing packages records: how many went.
pub fn uninstalled_artifact(index: usize, count: usize) -> (a: Artifact)
    ensures
        a matches Artifact::Skipped { step_index, reason } && step_index == index && reason@
            == "uninstalled "@ + crate::text::decimal(count as nat) + " packages"@,
{
    let mut v = chars_of("uninstalled ");
    crate::text::push_decimal(&mut v, count);
    append_str(&mut v, " packages");
    Artifact::Skipped { step_index: index, reason: string_of(&v) }
}


// ------------------------------------------------------------ verify steps

/// How a run of `vietime-doctor check` ended.
pub enum DoctorRun {
    /// It exited successfully.
    Passed,
    /// It exited otherwise: its exit code (none where a signal ended it)
    /// and what it wrote to stderr.
    Failed { code: Option<i32>, stderr: String },
    /// It could not be started.
    NotStarted,
}

/// An integer in decimal, with a leading minus sign when negative.
pub open spec fn signed_decimal(i: int) -> Seq<char> {
    if i < 0 {
        "-"@ + crate::text::decimal((-i) as nat)
    } else {
        crate::text::decimal(i as nat)
    }
}

fn push_signed(out: &mut Vec<char>, i: i32)
    ensures
        final(out)@ == old(out)@ + signed_decimal(i as int),
{
    if i < 0 {
        crate::text::append_str(out, "-");
        let m: i64 = -(i as i64);
        crate::text::push_decimal(out, m as usize);
    } else {
        crate::text::push_decimal(out, i as usize);
    }
}

/// The artifact of a verify step that needs no outside run: every check
/// but the doctor's passes at once (these checks are placeholders); for
/// the doctor's check the answer is `None`, and the step's outcome comes
/// from `doctor_verify_outcome`.
pub fn verify_stub_outcome(index: usize, check: &crate::model::VerifyCheck) -> (r: Option<Artifact>)
    ensures
        match check@ {
            crate::model::VerifyCheckView::DoctorCheckPasses => r is None,
            crate::model::VerifyCheckView::DaemonRunning { framework } => r matches Some(Artifact::VerifyOk { step_index, summary })
                && step_index == index
                && summary@ == "daemon running ("@ + crate::model::framework_debug_name(framework) + ") — stub check, see INS-61"@,
            crate::model::VerifyCheckView::EngineRegistered { name } => r matches Some(Artifact::VerifyOk { step_index, summary })
                && step_index == index
                && summary@ == "engine registered ("@ + name + ") — stub check, see INS-61"@,
            crate::model::VerifyCheckView::EnvConsistent => r matches Some(Artifact::VerifyOk { step_index, summary })
                && step_index == index
                && summary@ == "env consistent — stub check, see INS-61"@,
        },
{
    match check {
        crate::model::VerifyCheck::DoctorCheckPasses => None,
        crate::model::VerifyCheck::DaemonRunning { framework } => {
            let mut v = chars_of("daemon running (");
            append_str(&mut v, crate::model::framework_debug(*framework));
            append_str(&mut v, ") — stub check, see INS-61");
            Some(Artifact::VerifyOk { step_index: index, summary: string_of(&v) })
        },
        crate::model::VerifyCheck::EngineRegistered { name } => {
            let mut v = chars_of("engine registered (");
            append_str(&mut v, name.as_str());
            append_str(&mut v, ") — stub check, see INS-61");
            Some(Artifact::VerifyOk { step_index: index, summary: string_of(&v) })
        },
        crate::model::VerifyCheck::EnvConsistent => {
            let v = chars_of("env consistent — stub check, see INS-61");
            Some(Artifact::VerifyOk { step_index: index, summary: string_of(&v) })
        },
    }
}

/// A doctor verify step's outcome from how the doctor's run ended: a
/// pass is recorded, a failure aborts the plan with the exit code (-1
/// where there is none) and the trimmed stderr, and a doctor that could
/// not be started skips the check rather than block the install.
pub fn doctor_verify_outcome(index: usize, run: DoctorRun) -> (r: Result<Artifact, ExecError>)
    ensures
        match run {
            DoctorRun::Passed => r matches Ok(Artifact::VerifyOk { step_index, summary })
                && step_index == index && summary@ == "vietime-doctor check passed"@,
            DoctorRun::Failed { code, stderr } => r matches Err(ExecError::VerifyFailed { reason })
                && reason@ == "doctor exited with status "@ + signed_decimal(match code {
                    Some(c) => c as int,
                    None => -1,
                }) + "; stderr: "@ + crate::text::trim(stderr@),
            DoctorRun::NotStarted => r matches Ok(Artifact::Skipped { step_index, reason })
                && step_index == index && reason@ == "vietime-doctor not on PATH; verification skipped"@,
        },
{
    match run {
        DoctorRun::Passed => Ok(Artifact::VerifyOk { step_index: index, summary: "vietime-doctor check passed".to_owned() }),
        DoctorRun::Failed { code, stderr } => {
            let c: i32 = match code {
                Some(c) => c,
                None => -1,
            };
            let mut v = chars_of("doctor exited with status ");
            push_signed(&mut v, c);
            append_str(&mut v, "; stderr: ");
            let raw = chars_of(stderr.as_str());
            let t = crate::text::trim_vec(&raw);
            crate::text::append_chars(&mut v, &t);
            Err(ExecError::VerifyFailed { reason: string_of(&v) })
        },
        DoctorRun::NotStarted => Ok(
            Artifact::Skipped { step_index: index, reason: "vietime-doctor not on PATH; verification skipped".to_owned() },
        ),
    }
}


// ------------------------------------------------------------ step records

/// How an env-file step ended.
pub enum EnvStepOutcome {
    /// The set would change nothing.
    AlreadySet,
    /// The file was rewritten with the variable set.
    Written,
    /// The file to remove the variable from does not exist.
    FileMissing,
    /// The file does not hold the variable.
    KeyAbsent,
    /// The file was rewritten without the variable.
    Unset,
}

/// What an env-file step records: the changes as passed checks, the
/// no-ops as skipped steps, each with its message.
pub fn env_step_artifact(index: usize, key: &str, path: &str, outcome: EnvStepOutcome) -> (a: Artifact)
    ensures
        match outcome {
            EnvStepOutcome::AlreadySet => a matches Artifact::Skipped { step_index, reason }
                && step_index == index && reason@ == key@ + " already set"@,
            EnvStepOutcome::Written => a matches Artifact::VerifyOk { step_index, summary }
                && step_index == index && summary@ == "set "@ + key@ + " in "@ + path@,
            EnvStepOutcome::FileMissing => a matches Artifact::Skipped { step_index, reason }
                && step_index == index && reason@ == path@ + " did not exist"@,
            EnvStepOutcome::KeyAbsent => a matches Artifact::Skipped { step_index, reason }
                && step_index == index && reason@ == key@ + " was not present"@,
            EnvStepOutcome::Unset => a matches Artifact::VerifyOk { step_index, summary }
                && step_index == index && summary@ == "unset "@ + key@ + " from "@ + path@,
        },
{
    match outcome {
        EnvStepOutcome::AlreadySet => {
            let mut v = chars_of(key);
            append_str(&mut v, " already set");
            Artifact::Skipped { step_index: index, reason: string_of(&v) }
        },
        EnvStepOutcome::Written => {
            let mut v = chars_of("set ");
            append_str(&mut v, key);
            append_str(&mut v, " in ");
            append_str(&mut v, path);
            Artifact::VerifyOk { step_index: index, summary: string_of(&v) }
        },
        EnvStepOutcome::FileMissing => {
            let mut v = chars_of(path);
            append_str(&mut v, " did not exist");
            Artifact::Skipped { step_index: index, reason: string_of(&v) }
        },
        EnvStepOutcome::KeyAbsent => {
            let mut v = chars_of(key);
            append_str(&mut v, " was not present");
            Artifact::Skipped { step_index: index, reason: string_of(&v) }
        },
        EnvStepOutcome::Unset => {
            let mut v = chars_of("unset ");
            append_str(&mut v, key);
            append_str(&mut v, " from ");
            append_str(&mut v, path);
            Artifact::VerifyOk { step_index: index, summary: string_of(&v) }
        },
    }
}

/// The command line that switches the system's input method with
/// `im-config`: the program to start and its arguments, through `sudo`
/// unless the plan runs without it.
pub fn im_config_command(mode: &str, sudo: Sudo) -> (r: (&'static str, Vec<String>))
    ensures
        match sudo {
            Sudo::NoSudo => r.0@ == "im-config"@ && string_views(r.1@) == seq!["-n"@, mode@],
            _ => r.0@ == "sudo"@ && string_views(r.1@) == seq!["im-config"@, "-n"@, mode@],
        },
{
    let mut args: Vec<String> = Vec::new();
    let program = match sudo {
        Sudo::NoSudo => "im-config",
        _ => {
            args.push("im-config".to_owned());
            "sudo"
        },
    };
    args.push("-n".to_owned());
    args.push(mode.to_owned());
    assert(string_views(args@) =~= match sudo {
        Sudo::NoSudo => seq!["-n"@, mode@],
        _ => seq!["im-config"@, "-n"@, mode@],
    });
    (program, args)
}

/// What a finished `im-config` step records.
pub fn im_config_artifact(index: usize, mode: &str) -> (a: Artifact)
    ensures
        a matches Artifact::VerifyOk { step_index, summary } && step_index == index
            && summary@ == "im-config -n "@ + mode@,
{
    let mut v = chars_of("im-config -n ");
    append_str(&mut v, mode);
    Artifact::VerifyOk { step_index: index, summary: string_of(&v) }
}

/// What a written file records.
pub fn write_file_artifact(index: usize, path: &str) -> (a: Artifact)
    ensures
        a matches Artifact::VerifyOk { step_index, summary } && step_index == index
            && summary@ == "wrote "@ + path@,
{
    let mut v = chars_of("wrote ");
    append_str(&mut v, path);
    Artifact::VerifyOk { step_index: index, summary: string_of(&v) }
}

/// The message of a command that failed: the command, then what it wrote
/// to stderr, trimmed.
pub fn command_failure(command: &str, stderr: &str) -> (s: String)
    ensures
        s@ == command@ + ": "@ + crate::text::trim(stderr@),
{
    let mut v = chars_of(command);
    append_str(&mut v, ": ");
    let raw = chars_of(stderr);
    let t = crate::text::trim_vec(&raw);
    crate::text::append_chars(&mut v, &t);
    string_of(&v)
}


// ------------------------------------------------------------ the run

/// Where a run of a plan stands: the next step, how many steps were
/// done, and whether one failed.
#[derive(Debug, Clone, Copy, PartialEq, Eq, Structural)]
pub struct RunState {
    pub next: usize,
    pub executed: usize,
    pub failed: bool,
}

/// What the executor does next.
#[derive(Debug, Clone, Copy, PartialEq, Eq, Structural)]
pub enum RunAction {
    /// Record what step `index` would do, without doing it (dry run).
    Preview { index: usize },
    /// Perform step `index` and record its artifact.
    Perform { index: usize },
    /// Every step is done: finalise the snapshot and report how many ran.
    Finish { steps_executed: usize },
    /// A step failed: roll back what was recorded.
    RollBack,
}

/// A run before its first step.
pub fn run_start() -> (s: RunState)
    ensures
        s == (RunState { next: 0, executed: 0, failed: false }),
{
    RunState { next: 0, executed: 0, failed: false }
}

/// The next thing a run does: roll back once a step failed; otherwise the
/// next step, previewed in a dry run and performed in a live one; finish
/// when no step is left.
pub fn run_next(dry_run: bool, step_count: usize, state: RunState) -> (a: RunAction)
    ensures
        a == run_next_spec(dry_run, step_count, state),
{
    if state.failed {
        RunAction::RollBack
    } else if state.next < step_count {
        if dry_run {
            RunAction::Preview { index: state.next }
        } else {
            RunAction::Perform { index: state.next }
        }
    } else {
        RunAction::Finish { steps_executed: state.executed }
    }
}

/// The run after a step ended: on success the next step is due and one
/// more step counts as done; on failure the run is marked failed.
pub fn run_after(state: RunState, ok: bool) -> (s: RunState)
    requires
        state.next < usize::MAX,
        state.executed < usize::MAX,
    ensures
        s == run_after_spec(state, ok),
{
    if ok {
        RunState { next: state.next + 1, executed: state.executed + 1, failed: state.failed }
    } else {
        RunState { next: state.next, executed: state.executed, failed: true }
    }
}

/// The state after `n` steps that all succeeded.
pub open spec fn all_ok_after(n: nat) -> RunState {
    RunState { next: n as usize, executed: n as usize, failed: false }
}

/// A run starts at step 0; while every step succeeds it visits the steps
/// once each, in order, and finishes having executed all of them; a step
/// that fails turns the run to rolling back.
pub proof fn law_run_visits_each_step(dry_run: bool, step_count: usize, n: nat)
    requires
        n <= step_count,
    ensures
        n < step_count ==> run_next_spec(dry_run, step_count, all_ok_after(n)) == (if dry_run {
            RunAction::Preview { index: n as usize }
        } else {
            RunAction::Perform { index: n as usize }
        }),
        n == step_count ==> run_next_spec(dry_run, step_count, all_ok_after(n)) == (RunAction::Finish { steps_executed: step_count }),
        n < step_count ==> run_after_spec(all_ok_after(n), true) == all_ok_after(n + 1),
        run_after_spec(all_ok_after(n), false) == (RunState { failed: true, ..all_ok_after(n) }),
        run_next_spec(dry_run, step_count, RunState { failed: true, ..all_ok_after(n) }) == RunAction::RollBack,
        all_ok_after(0) == (RunState { next: 0, executed: 0, failed: false }),
{
}

/// `run_after` as a spec function.
pub open spec fn run_after_spec(state: RunState, ok: bool) -> RunState {
    if ok {
        RunState { next: (state.next + 1) as usize, executed: (state.executed + 1) as usize, failed: state.failed }
    } else {
        RunState { next: state.next, executed: state.executed, failed: true }
    }
}

/// `run_next` as a spec function.
pub open spec fn run_next_spec(dry_run: bool, step_count: usize, state: RunState) -> RunAction {
    if state.failed {
        RunAction::RollBack
    } else if state.next < step_count {
        if dry_run {
            RunAction::Preview { index: state.next }
        } else {
            RunAction::Perform { index: state.next }
        }
    } else {
        RunAction::Finish { steps_executed: state.executed }
    }
}

} // verus!
