//! Privileges: which steps need root, and the pre-flight dialogue with
//! `sudo` as a state machine whose probes the caller runs.
use crate::model::{steps_view, EnvFileView, Plan, Step, StepView};
use crate::packageops::Sudo;
use crate::text::{chars_of, has_prefix_str, starts_with};
use vstd::prelude::*;

verus! {

/// Whether the pre-flight may prompt on the terminal.
#[derive(Debug, Clone, Copy, PartialEq, Eq, Structural)]
pub enum PreflightMode {
    /// Prompt on the terminal if `sudo` is not primed.
    Interactive,
    /// Never prompt; fail where a password would be needed.
    Unattended,
}

/// Why privileges could not be had.
#[derive(Debug)]
pub enum SudoError {
    /// `sudo` is not on `PATH`.
    SudoMissing,
    /// A password would be needed but prompting is not allowed.
    WouldPrompt,
    /// `sudo` refused the credentials.
    CheckFailed { stderr: String },
    /// Running `sudo` failed.
    Io(std::io::Error),
}

/// The narrow notion of a system path: under `/etc/`, `/usr/` or `/var/`,
/// but not the temporary trees `/var/folders/`, `/var/tmp/`, `/tmp/`.
pub open spec fn system_path(p: Seq<char>) -> bool {
    !(starts_with(p, "/var/folders/"@) || starts_with(p, "/var/tmp/"@) || starts_with(p, "/tmp/"@))
        && (starts_with(p, "/etc/"@) || starts_with(p, "/usr/"@) || starts_with(p, "/var/"@))
}

/// Whether `path` is a system path.
pub fn is_system_path(path: &str) -> (b: bool)
    ensures
        b == system_path(path@),
{
    let s = chars_of(path);
    if has_prefix_str(&s, "/var/folders/") || has_prefix_str(&s, "/var/tmp/") || has_prefix_str(
        &s,
        "/tmp/",
    ) {
        return false;
    }
    has_prefix_str(&s, "/etc/") || has_prefix_str(&s, "/usr/") || has_prefix_str(&s, "/var/")
}

/// Whether a step changes system state: packages, `im-config`,
/// `/etc/environment`, or a file under a system path.
pub open spec fn needs_sudo(s: StepView) -> bool {
    match s {
        StepView::InstallPackages { .. } => true,
        StepView::UninstallPackages { .. } => true,
        StepView::RunImConfig { .. } => true,
        StepView::SetEnvVar { file, .. } => file == EnvFileView::EtcEnvironment,
        StepView::UnsetEnvVar { file, .. } => file == EnvFileView::EtcEnvironment,
        StepView::WriteFile { path, .. } => system_path(path),
        _ => false,
    }
}

/// Whether one step needs root.
pub fn step_requires_sudo(step: &Step) -> (b: bool)
    ensures
        b == needs_sudo(step@),
{
    match step {
        Step::InstallPackages { .. } | Step::UninstallPackages { .. } | Step::RunImConfig { .. } => true,
        Step::SetEnvVar { file, .. } | Step::UnsetEnvVar { file, .. } => {
            matches!(file, crate::model::EnvFile::EtcEnvironment)
        },
        Step::WriteFile { path, .. } => is_system_path(path.as_str()),
        _ => false,
    }
}

/// Whether the plan needs root: it says so, or one of its steps does.
pub fn plan_requires_sudo(plan: &Plan) -> (b: bool)
    ensures
        b == (plan.requires_sudo || exists|i: int|
            0 <= i < plan.steps@.len() && needs_sudo(#[trigger] steps_view(plan.steps@)[i])),
{
    if plan.requires_sudo {
        return true;
    }
    let mut i: usize = 0;
    while i < plan.steps.len()
        invariant
            i <= plan.steps.len(),
            forall|j: int| 0 <= j < i ==> !needs_sudo(#[trigger] steps_view(plan.steps@)[j]),
        decreases plan.steps.len() - i,
    {
        if step_requires_sudo(&plan.steps[i]) {
            assert(needs_sudo(steps_view(plan.steps@)[i as int]));
            return true;
        }
        assert(!needs_sudo(steps_view(plan.steps@)[i as int]));
        i += 1;
    }
    false
}

/// What the caller learnt from the last probe.
#[derive(Debug)]
pub enum PreflightEvent {
    /// The start: whether the plan needs root at all.
    Begin { requires_sudo: bool },
    /// Whether `sudo --version` ran successfully.
    SudoPresent(bool),
    /// Whether `sudo -n -v` succeeded, i.e. credentials are cached.
    CacheValid(bool),
    /// How `sudo -v` (which may prompt) ended.
    Primed(Result<(), SudoError>),
}

/// What the caller does next.
#[derive(Debug)]
pub enum PreflightAction {
    /// Check that `sudo` exists.
    ProbeSudo,
    /// Check for cached credentials without prompting.
    ProbeCache,
    /// Run `sudo -v`, which may prompt on the terminal.
    PrimeCache,
    /// Stop: the privilege wrapper to use, or why there is none.
    Finish(Result<Sudo, SudoError>),
}

/// The wrapper for cached credentials in each mode.
pub open spec fn cached_wrapper(mode: PreflightMode) -> Sudo {
    match mode {
        PreflightMode::Interactive => Sudo::Interactive,
        PreflightMode::Unattended => Sudo::Unattended,
    }
}

/// One step of the pre-flight. A plan that needs no root finishes at once
/// with no wrapper; a missing `sudo` is an error; cached credentials give
/// the mode's wrapper; otherwise an unattended run fails with
/// `WouldPrompt` and an interactive one primes the cache and then uses
/// `sudo`. Only an interactive pre-flight is ever told to prompt.
pub fn preflight_step(mode: PreflightMode, event: PreflightEvent) -> (a: PreflightAction)
    ensures
        a is PrimeCache ==> mode == PreflightMode::Interactive,
        match event {
            PreflightEvent::Begin { requires_sudo } => if requires_sudo {
                a is ProbeSudo
            } else {
                a matches PreflightAction::Finish(Ok(s)) && s == Sudo::NoSudo
            },
            PreflightEvent::SudoPresent(present) => if present {
                a is ProbeCache
            } else {
                a matches PreflightAction::Finish(Err(SudoError::SudoMissing))
            },
            PreflightEvent::CacheValid(valid) => if valid {
                a matches PreflightAction::Finish(Ok(s)) && s == cached_wrapper(mode)
            } else if mode == PreflightMode::Unattended {
                a matches PreflightAction::Finish(Err(SudoError::WouldPrompt))
            } else {
                a is PrimeCache
            },
            PreflightEvent::Primed(Ok(())) => a matches PreflightAction::Finish(Ok(s)) && s
                == Sudo::Interactive,
            PreflightEvent::Primed(Err(e)) => a == PreflightAction::Finish(Err(e)),
        },
{
    match event {
        PreflightEvent::Begin { requires_sudo } => {
            if requires_sudo {
                PreflightAction::ProbeSudo
            } else {
                PreflightAction::Finish(Ok(Sudo::NoSudo))
            }
        },
        PreflightEvent::SudoPresent(present) => {
            if present {
                PreflightAction::ProbeCache
            } else {
                PreflightAction::Finish(Err(SudoError::SudoMissing))
            }
        },
        PreflightEvent::CacheValid(valid) => {
            if valid {
                PreflightAction::Finish(
                    Ok(
                        match mode {
                            PreflightMode::Interactive => Sudo::Interactive,
                            PreflightMode::Unattended => Sudo::Unattended,
                        },
                    ),
                )
            } else {
                match mode {
                    PreflightMode::Unattended => PreflightAction::Finish(Err(SudoError::WouldPrompt)),
                    PreflightMode::Interactive => PreflightAction::PrimeCache,
                }
            }
        },
        PreflightEvent::Primed(res) => match res {
            Ok(()) => PreflightAction::Finish(Ok(Sudo::Interactive)),
            Err(e) => PreflightAction::Finish(Err(e)),
        },
    }
}

} // verus!
