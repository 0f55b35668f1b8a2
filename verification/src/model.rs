//! The installer's data model: frameworks, engines, combos, env files,
//! steps, goals and the plan that strings them together.
use crate::text::{chars_of, lower_seq, string_of, string_views, to_lower, trim, trim_vec};
use vstd::prelude::*;

verus! {

/// The current schema version of a serialised plan.
pub const PLAN_SCHEMA_VERSION: u32 = 1;

/// An input-method framework.
#[derive(Debug, Clone, Copy, PartialEq, Eq, Structural, Hash)]
pub enum ImFramework {
    NoFramework,
    Ibus,
    Fcitx5,
}

/// Which framework the running session actually uses.
#[derive(Debug, Clone, Copy, PartialEq, Eq, Structural, Hash)]
pub enum ActiveFramework {
    NoFramework,
    Ibus,
    Fcitx5,
    Conflict,
}

/// A distribution family, as far as packaging is concerned.
#[derive(Debug, Clone, Copy, PartialEq, Eq, Structural, Hash)]
pub enum DistroFamily {
    Debian,
    Redhat,
    Arch,
    Suse,
    Alpine,
    Nix,
    Unknown,
}

/// The kind of graphical session.
#[derive(Debug, Clone, Copy, PartialEq, Eq, Structural, Hash)]
pub enum SessionType {
    X11,
    Wayland,
    Tty,
    Unknown,
}

/// A Vietnamese input-method engine.
#[derive(Debug, Clone, Copy, PartialEq, Eq, Structural, Hash)]
pub enum Engine {
    Bamboo,
    Unikey,
}

pub open spec fn engine_name(e: Engine) -> Seq<char> {
    match e {
        Engine::Bamboo => "bamboo"@,
        Engine::Unikey => "unikey"@,
    }
}

impl Engine {
    /// The engine's lowercase identifier.
    pub fn as_str(self) -> (s: &'static str)
        ensures
            s@ == engine_name(self),
    {
        match self {
            Engine::Bamboo => "bamboo",
            Engine::Unikey => "unikey",
        }
    }
}

pub open spec fn framework_name(f: ImFramework) -> Seq<char> {
    match f {
        ImFramework::Fcitx5 => "fcitx5"@,
        ImFramework::Ibus => "ibus"@,
        ImFramework::NoFramework => "none"@,
    }
}

/// A framework and an engine: what the installer sets up.
#[derive(Debug, Clone, Copy, PartialEq, Eq, Structural, Hash)]
pub struct Combo {
    pub framework: ImFramework,
    pub engine: Engine,
}

/// The supported combos, in their stable order.
pub open spec fn supported_combos() -> Seq<Combo> {
    seq![
        Combo { framework: ImFramework::Fcitx5, engine: Engine::Bamboo },
        Combo { framework: ImFramework::Fcitx5, engine: Engine::Unikey },
        Combo { framework: ImFramework::Ibus, engine: Engine::Bamboo },
        Combo { framework: ImFramework::Ibus, engine: Engine::Unikey },
    ]
}

/// `<framework>-<engine>`.
pub open spec fn combo_slug(c: Combo) -> Seq<char> {
    framework_name(c.framework) + seq!['-'] + engine_name(c.engine)
}

/// The slugs of the supported combos joined by `", "`.
pub open spec fn supported_list() -> Seq<char> {
    combo_slug(supported_combos()[0]) + ", "@ + combo_slug(supported_combos()[1]) + ", "@
        + combo_slug(supported_combos()[2]) + ", "@ + combo_slug(supported_combos()[3])
}

/// The index of the first supported combo whose slug is `s`, if any.
pub open spec fn find_slug_from(s: Seq<char>, i: int) -> Option<Combo>
    decreases 4 - i,
{
    if i < 0 || i >= 4 {
        None
    } else if combo_slug(supported_combos()[i]) == s {
        Some(supported_combos()[i])
    } else {
        find_slug_from(s, i + 1)
    }
}

/// What parsing a combo name gives: the supported combo whose slug is the
/// trimmed, ASCII-lowercased input.
pub open spec fn parse_combo_spec(s: Seq<char>) -> Option<Combo> {
    find_slug_from(lower_seq(trim(s)), 0)
}

/// A combo name that names no supported combo: the input as given and the
/// list of supported names.
#[derive(Debug)]
pub struct ParseComboError(pub String, pub String);

impl ParseComboError {
    /// The error's message.
    pub fn message(&self) -> (m: String)
        ensures
            m@ == "unknown combo `"@ + self.0@ + "` — expected one of: "@ + self.1@,
    {
        let mut v = chars_of("unknown combo `");
        let a = chars_of(self.0.as_str());
        crate::text::append_chars(&mut v, &a);
        crate::text::append_str(&mut v, "` — expected one of: ");
        let b = chars_of(self.1.as_str());
        crate::text::append_chars(&mut v, &b);
        string_of(&v)
    }
}

impl Combo {
    pub fn new(framework: ImFramework, engine: Engine) -> (c: Combo)
        ensures
            c.framework == framework,
            c.engine == engine,
    {
        Combo { framework, engine }
    }

    /// The supported combos in a stable order.
    pub fn all_supported() -> (v: Vec<Combo>)
        ensures
            v@ == supported_combos(),
    {
        let v = vec![
            Combo::new(ImFramework::Fcitx5, Engine::Bamboo),
            Combo::new(ImFramework::Fcitx5, Engine::Unikey),
            Combo::new(ImFramework::Ibus, Engine::Bamboo),
            Combo::new(ImFramework::Ibus, Engine::Unikey),
        ];
        assert(v@ =~= supported_combos());
        v
    }

    /// The CLI name of the combo, such as `fcitx5-bamboo`.
    pub fn slug(self) -> (s: String)
        ensures
            s@ == combo_slug(self),
    {
        let fw = match self.framework {
            ImFramework::Fcitx5 => "fcitx5",
            ImFramework::Ibus => "ibus",
            ImFramework::NoFramework => "none",
        };
        let mut v = chars_of(fw);
        v.push('-');
        crate::text::append_str(&mut v, self.engine.as_str());
        string_of(&v)
    }

    /// Parses a combo name: surrounding whitespace and ASCII case are
    /// ignored; anything that names no supported combo is an error that
    /// carries the input and the supported names.
    pub fn parse(s: &str) -> (r: Result<Combo, ParseComboError>)
        ensures
            match r {
                Ok(c) => parse_combo_spec(s@) == Some(c),
                Err(e) => parse_combo_spec(s@) is None && e.0@ == s@ && e.1@ == supported_list(),
            },
    {
        let cs = chars_of(s);
        let t = trim_vec(&cs);
        let normalized = to_lower(&t);
        let all = Combo::all_supported();
        let mut i: usize = 0;
        while i < all.len()
            invariant
                all@ == supported_combos(),
                i <= 4,
                normalized@ == lower_seq(trim(s@)),
                find_slug_from(normalized@, 0) == find_slug_from(normalized@, i as int),
            decreases 4 - i,
        {
            let slug = all[i].slug();
            let sv = chars_of(slug.as_str());
            if crate::text::seq_eq(&sv, &normalized) {
                return Ok(all[i]);
            }
            i += 1;
        }
        let mut list: Vec<char> = Vec::new();
        let mut j: usize = 0;
        while j < all.len()
            invariant
                all@ == supported_combos(),
                j <= 4,
                j == 0 ==> list@ == Seq::<char>::empty(),
                j >= 1 ==> list@ == combo_slug(supported_combos()[0]) + (if j >= 2 { ", "@ + combo_slug(supported_combos()[1]) } else { Seq::<char>::empty() }) + (if j >= 3 { ", "@ + combo_slug(supported_combos()[2]) } else { Seq::<char>::empty() }) + (if j >= 4 { ", "@ + combo_slug(supported_combos()[3]) } else { Seq::<char>::empty() }),
            decreases 4 - j,
        {
            if j > 0 {
                crate::text::append_str(&mut list, ", ");
            }
            let slug = all[j].slug();
            crate::text::append_str(&mut list, slug.as_str());
            j += 1;
        }
        Err(ParseComboError(s.to_owned(), string_of(&list)))
    }
}

/// `Path::join` on paths held as text: an absolute `rel` replaces `base`;
/// otherwise the two are joined with exactly one separator added.
pub open spec fn path_join(base: Seq<char>, rel: Seq<char>) -> Seq<char> {
    if rel.len() > 0 && rel[0] == '/' {
        rel
    } else if base.len() == 0 || base.last() == '/' {
        base + rel
    } else {
        base + seq!['/'] + rel
    }
}

/// Joins `rel` onto `base` as `Path::join` does.
pub fn join_path(base: &str, rel: &str) -> (p: String)
    ensures
        p@ == path_join(base@, rel@),
{
    let b = chars_of(base);
    let r = chars_of(rel);
    if r.len() > 0 && r[0] == '/' {
        return string_of(&r);
    }
    let mut out = b;
    if !(out.len() == 0 || out[out.len() - 1] == '/') {
        out.push('/');
    }
    crate::text::append_chars(&mut out, &r);
    string_of(&out)
}

impl std::str::FromStr for Combo {
    type Err = ParseComboError;

    /// The combo a name stands for, as `Combo::parse` reads it.
    fn from_str(s: &str) -> (r: Result<Combo, ParseComboError>)
        ensures
            match r {
                Ok(c) => parse_combo_spec(s@) == Some(c),
                Err(e) => parse_combo_spec(s@) is None && e.0@ == s@ && e.1@ == supported_list(),
            },
    {
        Combo::parse(s)
    }
}

/// A distribution's package manager.
#[derive(Debug, Clone, Copy, PartialEq, Eq, Structural, Hash)]
pub enum PackageManager {
    Apt,
    Dnf,
    Pacman,
    Zypper,
    Xbps,
    Emerge,
}

/// A file of environment assignments that the installer edits.
#[derive(Debug, Clone)]
pub enum EnvFile {
    EtcEnvironment,
    HomeProfile,
    ConfigEnvironmentD { filename: String },
    SystemdUserEnv,
    Custom { path: String },
}

/// An env file as a mathematical value.
pub enum EnvFileView {
    EtcEnvironment,
    HomeProfile,
    ConfigEnvironmentD { filename: Seq<char> },
    SystemdUserEnv,
    Custom { path: Seq<char> },
}

impl View for EnvFile {
    type V = EnvFileView;

    open spec fn view(&self) -> EnvFileView {
        match self {
            EnvFile::EtcEnvironment => EnvFileView::EtcEnvironment,
            EnvFile::HomeProfile => EnvFileView::HomeProfile,
            EnvFile::ConfigEnvironmentD { filename } => EnvFileView::ConfigEnvironmentD {
                filename: filename@,
            },
            EnvFile::SystemdUserEnv => EnvFileView::SystemdUserEnv,
            EnvFile::Custom { path } => EnvFileView::Custom { path: path@ },
        }
    }
}

/// Where an env file lives for the given home directory.
pub open spec fn env_file_path(f: EnvFileView, home: Seq<char>) -> Seq<char> {
    match f {
        EnvFileView::EtcEnvironment => "/etc/environment"@,
        EnvFileView::HomeProfile => path_join(home, ".profile"@),
        EnvFileView::ConfigEnvironmentD { filename } => path_join(
            path_join(home, ".config/environment.d"@),
            filename,
        ),
        EnvFileView::SystemdUserEnv => path_join(home, ".config/systemd/user/environment.conf"@),
        EnvFileView::Custom { path } => path,
    }
}

impl EnvFile {
    /// The path this env file resolves to under `home`.
    pub fn path(&self, home: &str) -> (p: String)
        ensures
            p@ == env_file_path(self@, home@),
    {
        match self {
            EnvFile::EtcEnvironment => "/etc/environment".to_owned(),
            EnvFile::HomeProfile => join_path(home, ".profile"),
            EnvFile::ConfigEnvironmentD { filename } => {
                let d = join_path(home, ".config/environment.d");
                join_path(d.as_str(), filename.as_str())
            },
            EnvFile::SystemdUserEnv => join_path(home, ".config/systemd/user/environment.conf"),
            EnvFile::Custom { path } => path.clone(),
        }
    }
}

/// A check run after the mutating steps.
#[derive(Debug, Clone)]
pub enum VerifyCheck {
    DaemonRunning { framework: ImFramework },
    EngineRegistered { name: String },
    EnvConsistent,
    DoctorCheckPasses,
}

/// A verify check as a mathematical value.
pub enum VerifyCheckView {
    DaemonRunning { framework: ImFramework },
    EngineRegistered { name: Seq<char> },
    EnvConsistent,
    DoctorCheckPasses,
}

impl View for VerifyCheck {
    type V = VerifyCheckView;

    open spec fn view(&self) -> VerifyCheckView {
        match self {
            VerifyCheck::DaemonRunning { framework } => VerifyCheckView::DaemonRunning {
                framework: *framework,
            },
            VerifyCheck::EngineRegistered { name } => VerifyCheckView::EngineRegistered {
                name: name@,
            },
            VerifyCheck::EnvConsistent => VerifyCheckView::EnvConsistent,
            VerifyCheck::DoctorCheckPasses => VerifyCheckView::DoctorCheckPasses,
        }
    }
}

/// When a prompt may go on without the user.
#[derive(Debug, Clone, Copy, PartialEq, Eq, Structural)]
pub enum PromptCondition {
    UserYes,
    NonInteractive,
}

/// One unit of work of a plan.
#[derive(Debug, Clone)]
#[allow(inconsistent_fields)]
pub enum Step {
    BackupFile { path: String },
    InstallPackages { manager: PackageManager, packages: Vec<String> },
    UninstallPackages { manager: PackageManager, packages: Vec<String> },
    SetEnvVar { file: EnvFile, key: String, value: String },
    UnsetEnvVar { file: EnvFile, key: String },
    SystemctlUserEnable { unit: String },
    SystemctlUserDisable { unit: String },
    SystemctlUserStart { unit: String },
    SystemctlUserStop { unit: String },
    RunImConfig { mode: String },
    WriteFile { path: String, content: String, mode: u32 },
    Verify { check: VerifyCheck },
    Prompt { message: String, continue_if: PromptCondition },
}

/// A step as a mathematical value.
#[allow(inconsistent_fields)]
pub enum StepView {
    BackupFile { path: Seq<char> },
    InstallPackages { manager: PackageManager, packages: Seq<Seq<char>> },
    UninstallPackages { manager: PackageManager, packages: Seq<Seq<char>> },
    SetEnvVar { file: EnvFileView, key: Seq<char>, value: Seq<char> },
    UnsetEnvVar { file: EnvFileView, key: Seq<char> },
    SystemctlUserEnable { unit: Seq<char> },
    SystemctlUserDisable { unit: Seq<char> },
    SystemctlUserStart { unit: Seq<char> },
    SystemctlUserStop { unit: Seq<char> },
    RunImConfig { mode: Seq<char> },
    WriteFile { path: Seq<char>, content: Seq<char>, mode: u32 },
    Verify { check: VerifyCheckView },
    Prompt { message: Seq<char>, continue_if: PromptCondition },
}

impl View for Step {
    type V = StepView;

    open spec fn view(&self) -> StepView {
        match self {
            Step::BackupFile { path } => StepView::BackupFile { path: path@ },
            Step::InstallPackages { manager, packages } => StepView::InstallPackages {
                manager: *manager,
                packages: string_views(packages@),
            },
            Step::UninstallPackages { manager, packages } => StepView::UninstallPackages {
                manager: *manager,
                packages: string_views(packages@),
            },
            Step::SetEnvVar { file, key, value } => StepView::SetEnvVar {
                file: file@,
                key: key@,
                value: value@,
            },
            Step::UnsetEnvVar { file, key } => StepView::UnsetEnvVar { file: file@, key: key@ },
            Step::SystemctlUserEnable { unit } => StepView::SystemctlUserEnable { unit: unit@ },
            Step::SystemctlUserDisable { unit } => StepView::SystemctlUserDisable { unit: unit@ },
            Step::SystemctlUserStart { unit } => StepView::SystemctlUserStart { unit: unit@ },
            Step::SystemctlUserStop { unit } => StepView::SystemctlUserStop { unit: unit@ },
            Step::RunImConfig { mode } => StepView::RunImConfig { mode: mode@ },
            Step::WriteFile { path, content, mode } => StepView::WriteFile {
                path: path@,
                content: content@,
                mode: *mode,
            },
            Step::Verify { check } => StepView::Verify { check: check@ },
            Step::Prompt { message, continue_if } => StepView::Prompt {
                message: message@,
                continue_if: *continue_if,
            },
        }
    }
}

/// The views of a sequence of steps.
pub open spec fn steps_view(v: Seq<Step>) -> Seq<StepView> {
    Seq::new(v.len(), |i: int| v[i]@)
}

pub open spec fn step_kind(s: StepView) -> Seq<char> {
    match s {
        StepView::BackupFile { .. } => "backup_file"@,
        StepView::InstallPackages { .. } => "install_packages"@,
        StepView::UninstallPackages { .. } => "uninstall_packages"@,
        StepView::SetEnvVar { .. } => "set_env_var"@,
        StepView::UnsetEnvVar { .. } => "unset_env_var"@,
        StepView::SystemctlUserEnable { .. } => "systemctl_user_enable"@,
        StepView::SystemctlUserDisable { .. } => "systemctl_user_disable"@,
        StepView::SystemctlUserStart { .. } => "systemctl_user_start"@,
        StepView::SystemctlUserStop { .. } => "systemctl_user_stop"@,
        StepView::RunImConfig { .. } => "run_im_config"@,
        StepView::WriteFile { .. } => "write_file"@,
        StepView::Verify { .. } => "verify"@,
        StepView::Prompt { .. } => "prompt"@,
    }
}

impl Step {
    /// The step's stable snake-case tag.
    pub fn kind(&self) -> (k: &'static str)
        ensures
            k@ == step_kind(self@),
    {
        match self {
            Step::BackupFile { .. } => "backup_file",
            Step::InstallPackages { .. } => "install_packages",
            Step::UninstallPackages { .. } => "uninstall_packages",
            Step::SetEnvVar { .. } => "set_env_var",
            Step::UnsetEnvVar { .. } => "unset_env_var",
            Step::SystemctlUserEnable { .. } => "systemctl_user_enable",
            Step::SystemctlUserDisable { .. } => "systemctl_user_disable",
            Step::SystemctlUserStart { .. } => "systemctl_user_start",
            Step::SystemctlUserStop { .. } => "systemctl_user_stop",
            Step::RunImConfig { .. } => "run_im_config",
            Step::WriteFile { .. } => "write_file",
            Step::Verify { .. } => "verify",
            Step::Prompt { .. } => "prompt",
        }
    }
}

/// What the user asked for.
#[derive(Debug, Clone)]
pub enum Goal {
    Install { combo: Combo },
    Uninstall { snapshot_id: Option<String> },
    Switch { from: Combo, to: Combo },
}

/// The host's distribution.
#[derive(Debug, Clone)]
pub struct Distro {
    pub id: String,
    pub version_id: Option<String>,
    pub pretty: Option<String>,
    pub family: DistroFamily,
    pub id_like: Vec<String>,
}

impl Distro {
    /// Whether the distribution belongs to `family`.
    pub fn is_family(&self, family: DistroFamily) -> (b: bool)
        ensures
            b == (self.family == family),
    {
        self.family == family
    }
}

/// What the planner knows of the host before it plans.
#[derive(Debug, Clone)]
pub struct PreState {
    pub distro: Distro,
    pub session: SessionType,
    pub active_framework: ActiveFramework,
    pub installed_packages: Vec<String>,
}

impl PreState {
    /// Ubuntu 24.04 on Wayland with IBus running.
    pub fn fixture_ubuntu_24_04() -> (p: PreState)
        ensures
            p.distro.family == DistroFamily::Debian,
            p.distro.id@ == "ubuntu"@,
            p.session == SessionType::Wayland,
            p.active_framework == ActiveFramework::Ibus,
            p.installed_packages@.len() == 0,
    {
        PreState {
            distro: Distro {
                id: "ubuntu".to_owned(),
                version_id: Some("24.04".to_owned()),
                pretty: Some("Ubuntu 24.04 LTS".to_owned()),
                family: DistroFamily::Debian,
                id_like: vec!["debian".to_owned()],
            },
            session: SessionType::Wayland,
            active_framework: ActiveFramework::Ibus,
            installed_packages: Vec::new(),
        }
    }

    /// Fedora 40 on Wayland with no input method running.
    pub fn fixture_fedora_40() -> (p: PreState)
        ensures
            p.distro.family == DistroFamily::Redhat,
            p.distro.id@ == "fedora"@,
            p.session == SessionType::Wayland,
            p.active_framework == ActiveFramework::NoFramework,
            p.installed_packages@.len() == 0,
    {
        PreState {
            distro: Distro {
                id: "fedora".to_owned(),
                version_id: Some("40".to_owned()),
                pretty: Some("Fedora Linux 40 (Workstation Edition)".to_owned()),
                family: DistroFamily::Redhat,
                id_like: Vec::new(),
            },
            session: SessionType::Wayland,
            active_framework: ActiveFramework::NoFramework,
            installed_packages: Vec::new(),
        }
    }
}

/// `uuid::Uuid`, carried as the plan's identity.
#[verifier::external_type_specification]
#[verifier::external_body]
pub struct ExUuid(uuid::Uuid);


/// `uuid::Uuid::new_v4`: a random identifier. Nothing is stated of it.
#[verifier::external_body]
fn new_plan_id() -> (id: uuid::Uuid) {
    uuid::Uuid::new_v4()
}

/// `SystemTime::now` measured against `UNIX_EPOCH` with
/// `SystemTime::duration_since`, in whole seconds (`Duration::as_secs`):
/// `Ok(s)` when the clock reads `s` seconds after the epoch, `Err(s)` when
/// it reads `s` seconds before it (`SystemTimeError::duration`). The clock
/// is read, so nothing is stated of the value.
#[verifier::external_body]
fn read_clock() -> (r: Result<u64, u64>) {
    match std::time::SystemTime::now().duration_since(std::time::UNIX_EPOCH) {
        Ok(d) => Ok(d.as_secs()),
        Err(e) => Err(e.duration().as_secs()),
    }
}

/// Seconds relative to the Unix epoch, as a reading of the clock gives
/// them: after the epoch positive, before it negative; a magnitude beyond
/// `i64::MAX` is held at `i64::MAX`.
pub open spec fn epoch_seconds_spec(r: Result<u64, u64>) -> int {
    match r {
        Ok(s) => if s <= i64::MAX { s as int } else { i64::MAX as int },
        Err(s) => if s <= i64::MAX { -(s as int) } else { -(i64::MAX as int) },
    }
}

/// Turns a clock reading into signed seconds since the Unix epoch.
pub fn epoch_seconds(r: Result<u64, u64>) -> (t: i64)
    ensures
        t == epoch_seconds_spec(r),
{
    match r {
        Ok(s) => if s <= i64::MAX as u64 { s as i64 } else { i64::MAX },
        Err(s) => if s <= i64::MAX as u64 { -(s as i64) } else { -i64::MAX },
    }
}

/// The current time in seconds since the Unix epoch (negative for a clock
/// set before 1970): some reading of the clock, converted by
/// `epoch_seconds`.
pub(crate) fn utc_now_secs() -> (t: i64)
    ensures
        exists|r: Result<u64, u64>| t == epoch_seconds_spec(r),
{
    let r = read_clock();
    epoch_seconds(r)
}

/// The full description of one installer run.
#[derive(Debug)]
pub struct Plan {
    pub schema_version: u32,
    pub id: uuid::Uuid,
    pub goal: Goal,
    /// Creation time, in seconds since the Unix epoch (UTC).
    pub generated_at: i64,
    pub pre_state: PreState,
    pub steps: Vec<Step>,
    pub estimated_duration_secs: u64,
    pub requires_sudo: bool,
    pub requires_logout: bool,
}

impl Plan {
    /// An empty plan for `goal`: current schema, fresh id and timestamp,
    /// no steps, nothing required.
    pub fn new_skeleton(goal: Goal, pre_state: PreState) -> (p: Plan)
        ensures
            p.schema_version == PLAN_SCHEMA_VERSION,
            p.goal == goal,
            p.pre_state == pre_state,
            p.steps@.len() == 0,
            p.estimated_duration_secs == 0,
            !p.requires_sudo,
            !p.requires_logout,
    {
        Plan {
            schema_version: PLAN_SCHEMA_VERSION,
            id: new_plan_id(),
            goal,
            generated_at: utc_now_secs(),
            pre_state,
            steps: Vec::new(),
            estimated_duration_secs: 0,
            requires_sudo: false,
            requires_logout: false,
        }
    }
}

/// Every supported combo's slug parses back to that combo.
pub proof fn law_slug_parses_back(c: Combo)
    requires
        supported_combos().contains(c),
    ensures
        parse_combo_spec(combo_slug(c)) == Some(c),
{
    reveal_strlit("fcitx5");
    reveal_strlit("ibus");
    reveal_strlit("bamboo");
    reveal_strlit("unikey");
    let s = combo_slug(c);
    assert(!crate::text::is_ws(s[0]));
    assert(!crate::text::is_ws(s.last()));
    assert(crate::text::trim_start(s) == s);
    assert(trim(s) == s);
    assert(lower_seq(s) =~= s);
    let cs = supported_combos();
    assert(combo_slug(cs[0]) =~= seq!['f', 'c', 'i', 't', 'x', '5', '-', 'b', 'a', 'm', 'b', 'o', 'o']);
    assert(combo_slug(cs[1]) =~= seq!['f', 'c', 'i', 't', 'x', '5', '-', 'u', 'n', 'i', 'k', 'e', 'y']);
    assert(combo_slug(cs[2]) =~= seq!['i', 'b', 'u', 's', '-', 'b', 'a', 'm', 'b', 'o', 'o']);
    assert(combo_slug(cs[3]) =~= seq!['i', 'b', 'u', 's', '-', 'u', 'n', 'i', 'k', 'e', 'y']);
    let k = choose|k: int| 0 <= k < 4 && cs[k] == c;
    assert(cs[k] == c);
    if k == 0 {
    } else if k == 1 {
        assert(combo_slug(cs[0]) != s) by { assert(combo_slug(cs[0])[7] != s[7]); }
    } else if k == 2 {
        assert(combo_slug(cs[0]).len() != s.len());
        assert(combo_slug(cs[1]).len() != s.len());
    } else {
        assert(combo_slug(cs[0]).len() != s.len());
        assert(combo_slug(cs[1]).len() != s.len());
        assert(combo_slug(cs[2]) != s) by { assert(combo_slug(cs[2])[5] != s[5]); }
    }
    assert(find_slug_from(s, k) == Some(c));
    if k >= 3 { assert(find_slug_from(s, 2) == find_slug_from(s, 3)); }
    if k >= 2 { assert(find_slug_from(s, 1) == find_slug_from(s, 2)); }
    if k >= 1 { assert(find_slug_from(s, 0) == find_slug_from(s, 1)); }
}

/// The framework's variant name, as the report and the verify
/// summaries print it.
pub open spec fn framework_debug_name(f: ImFramework) -> Seq<char> {
    match f {
        ImFramework::NoFramework => "None"@,
        ImFramework::Ibus => "Ibus"@,
        ImFramework::Fcitx5 => "Fcitx5"@,
    }
}

pub fn framework_debug(f: ImFramework) -> (s: &'static str)
    ensures
        s@ == framework_debug_name(f),
{
    match f {
        ImFramework::NoFramework => "None",
        ImFramework::Ibus => "Ibus",
        ImFramework::Fcitx5 => "Fcitx5",
    }
}

} // verus!
