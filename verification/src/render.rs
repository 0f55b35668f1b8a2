//! The report's text: the values its sections show, and turning the
//! Markdown into plain text for terminals that do not render Markdown.
use crate::text::{
    append_chars, append_str, chars_of, is_ws, lines, slice_of, split_lines, starts_with, string_of,
    trim_end, trim_start, views,
};
use crate::checkers::{EnvSetting, EnvSource, Severity};
use crate::daemons::{Fcitx5Facts, IbusFacts};
use crate::model::{framework_debug, framework_debug_name, ActiveFramework};
use crate::reconcile::EngineFact;
use vstd::prelude::*;

verus! {

/// How the report is rendered.
#[derive(Debug, Clone, Copy, Default, PartialEq, Eq, Structural)]
pub struct RenderOptions {
    /// Strip Markdown syntax.
    pub plain: bool,
    /// Add the `--verbose` footer line.
    pub verbose: bool,
}

/// The number of leading `#`.
pub open spec fn hash_run(s: Seq<char>) -> nat
    decreases s.len(),
{
    if s.len() > 0 && s[0] == '#' {
        1 + hash_run(s.drop_first())
    } else {
        0
    }
}

/// An ATX heading line loses its one to six `#` and the spaces after
/// them; any other line is kept.
pub open spec fn atx_stripped(line: Seq<char>) -> Seq<char> {
    let t = trim_start(line);
    let h = hash_run(t);
    let rest = t.skip(h as int);
    if 0 < h <= 6 && (rest.len() == 0 || rest[0] == ' ') {
        trim_start(rest)
    } else {
        line
    }
}

/// Every backtick removed.
pub open spec fn ticks_removed(s: Seq<char>) -> Seq<char>
    decreases s.len(),
{
    if s.len() == 0 {
        seq![]
    } else if s.last() == '`' {
        ticks_removed(s.drop_last())
    } else {
        ticks_removed(s.drop_last()).push(s.last())
    }
}

proof fn lemma_hash_run(s: Seq<char>, i: int)
    requires
        0 <= i <= s.len(),
        forall|j: int| 0 <= j < i ==> #[trigger] s[j] == '#',
        i == s.len() || s[i] != '#',
    ensures
        hash_run(s) == i,
    decreases i,
{
    if i > 0 {
        assert forall|j: int| 0 <= j < i - 1 implies #[trigger] s.drop_first()[j] == '#' by {
            assert(s[j + 1] == '#');
        }
        lemma_hash_run(s.drop_first(), i - 1);
    }
}

fn trim_start_vec(s: &Vec<char>) -> (r: Vec<char>)
    ensures
        r@ == trim_start(s@),
{
    let mut i: usize = 0;
    while i < s.len() && crate::text::is_whitespace(s[i])
        invariant
            i <= s.len(),
            forall|j: int| 0 <= j < i ==> is_ws(#[trigger] s@[j]),
        decreases s.len() - i,
    {
        i += 1;
    }
    proof {
        crate::text::lemma_trim_start_skip(s@, i as int);
    }
    slice_of(s, i, s.len())
}

fn trim_end_vec(s: &Vec<char>) -> (r: Vec<char>)
    ensures
        r@ == trim_end(s@),
{
    let mut i: usize = s.len();
    while i > 0 && crate::text::is_whitespace(s[i - 1])
        invariant
            i <= s.len(),
            forall|j: int| i <= j < s.len() ==> is_ws(#[trigger] s@[j]),
        decreases i,
    {
        i -= 1;
    }
    proof {
        crate::text::lemma_trim_end_take(s@, i as int);
    }
    let r = slice_of(s, 0, i);
    assert(r@ =~= s@.take(i as int));
    r
}

fn atx_chars(line: &Vec<char>) -> (r: Vec<char>)
    ensures
        r@ == atx_stripped(line@),
{
    let t = trim_start_vec(line);
    let mut h: usize = 0;
    while h < t.len() && t[h] == '#'
        invariant
            h <= t.len(),
            forall|j: int| 0 <= j < h ==> #[trigger] t@[j] == '#',
        decreases t.len() - h,
    {
        h += 1;
    }
    proof {
        lemma_hash_run(t@, h as int);
    }
    if h > 0 && h <= 6 {
        let rest = slice_of(&t, h, t.len());
        assert(rest@ =~= t@.skip(h as int));
        if rest.len() == 0 || rest[0] == ' ' {
            return trim_start_vec(&rest);
        }
    }
    slice_of(line, 0, line.len())
}

fn ticks_chars(line: &Vec<char>) -> (r: Vec<char>)
    ensures
        r@ == ticks_removed(line@),
{
    let mut out: Vec<char> = Vec::new();
    let mut i: usize = 0;
    assert(line@.take(0) =~= Seq::<char>::empty());
    while i < line.len()
        invariant
            i <= line.len(),
            out@ == ticks_removed(line@.take(i as int)),
        decreases line.len() - i,
    {
        assert(line@.take(i + 1).drop_last() =~= line@.take(i as int));
        assert(line@.take(i + 1).last() == line@[i as int]);
        if line[i] != '`' {
            out.push(line[i]);
        }
        i += 1;
    }
    assert(line@.take(line.len() as int) =~= line@);
    out
}

/// Removes an ATX heading's `#` marks from a line.
pub fn strip_atx_heading(line: &str) -> (r: String)
    ensures
        r@ == atx_stripped(line@),
{
    let c = chars_of(line);
    string_of(&atx_chars(&c))
}

/// Removes every backtick from a line.
pub fn strip_inline_ticks(line: &str) -> (r: String)
    ensures
        r@ == ticks_removed(line@),
{
    let c = chars_of(line);
    string_of(&ticks_chars(&c))
}

/// The plain text of one Markdown line, or `None` for a code-fence line.
pub open spec fn plain_line(raw: Seq<char>) -> Option<Seq<char>> {
    let line = trim_end(raw);
    if starts_with(trim_start(line), "```"@) {
        None
    } else {
        Some(ticks_removed(atx_stripped(line)))
    }
}

/// The plain text of the lines, each ended by `\n`.
pub open spec fn plain_text(ls: Seq<Seq<char>>) -> Seq<char>
    decreases ls.len(),
{
    if ls.len() == 0 {
        seq![]
    } else {
        match plain_line(ls.last()) {
            Some(l) => plain_text(ls.drop_last()) + l + seq!['\n'],
            None => plain_text(ls.drop_last()),
        }
    }
}

/// Strips Markdown: trailing white space goes, code-fence lines are
/// dropped, heading marks and backticks removed, each line ended by `\n`.
pub fn strip_markdown(md: &str) -> (s: String)
    ensures
        s@ == plain_text(lines(md@)),
{
    let chars = chars_of(md);
    let ls = split_lines(&chars);
    let ghost all = views(ls@);
    let fence = chars_of("```");
    let mut out: Vec<char> = Vec::new();
    let mut i: usize = 0;
    assert(all.take(0) =~= Seq::<Seq<char>>::empty());
    while i < ls.len()
        invariant
            i <= ls.len(),
            all == views(ls@),
            all == lines(md@),
            fence@ == "```"@,
            out@ == plain_text(all.take(i as int)),
        decreases ls.len() - i,
    {
        assert(all.take(i + 1).drop_last() =~= all.take(i as int));
        assert(all.take(i + 1).last() == ls@[i as int]@);
        let line = trim_end_vec(&ls[i]);
        let ts = trim_start_vec(&line);
        if !crate::text::has_prefix(&ts, &fence) {
            let h = atx_chars(&line);
            let t = ticks_chars(&h);
            append_chars(&mut out, &t);
            out.push('\n');
        }
        i += 1;
    }
    assert(all.take(ls.len() as int) =~= all);
    string_of(&out)
}


// ------------------------------------------------------------ report sections

pub open spec fn severity_badge_spec(s: Severity) -> Seq<char> {
    match s {
        Severity::Info => "info"@,
        Severity::Warn => "warn"@,
        Severity::Error => "error"@,
        Severity::Critical => "critical"@,
    }
}

/// The badge an issue carries in the report.
pub fn severity_badge(s: Severity) -> (r: &'static str)
    ensures
        r@ == severity_badge_spec(s),
{
    match s {
        Severity::Info => "info",
        Severity::Warn => "warn",
        Severity::Error => "error",
        Severity::Critical => "critical",
    }
}

pub open spec fn env_source_label_spec(s: EnvSource) -> Seq<char> {
    match s {
        EnvSource::Process => "process"@,
        EnvSource::EtcEnvironment => "/etc/environment"@,
        EnvSource::EtcProfileD => "/etc/profile.d/*.sh"@,
        EnvSource::HomeProfile => "~/.profile or ~/.config/environment.d/"@,
        EnvSource::SystemdUserEnv => "systemctl --user show-environment"@,
        EnvSource::Pam => "pam"@,
        EnvSource::Unknown => "unknown"@,
    }
}

/// How the report's environment table names a source.
pub fn env_source_label(s: EnvSource) -> (r: &'static str)
    ensures
        r@ == env_source_label_spec(s),
{
    match s {
        EnvSource::Process => "process",
        EnvSource::EtcEnvironment => "/etc/environment",
        EnvSource::EtcProfileD => "/etc/profile.d/*.sh",
        EnvSource::HomeProfile => "~/.profile or ~/.config/environment.d/",
        EnvSource::SystemdUserEnv => "systemctl --user show-environment",
        EnvSource::Pam => "pam",
        EnvSource::Unknown => "unknown",
    }
}

/// One row of the report's environment table.
#[derive(Debug, Clone)]
pub struct EnvRow {
    pub name: String,
    pub value: String,
    pub source: String,
}

/// The row a variable gets: none where it has neither a value nor a
/// source; else its value (`<unset>` where empty) and its source's label
/// (`(unknown)` where there is none).
pub open spec fn env_row_spec(name: Seq<char>, e: EnvSetting) -> Option<(Seq<char>, Seq<char>, Seq<char>)> {
    let value = match e.value {
        Some(v) => v@,
        None => seq![],
    };
    if value.len() == 0 && e.source is None {
        None
    } else {
        Some((
            name,
            if value.len() == 0 { "<unset>"@ } else { value },
            match e.source {
                Some(s) => env_source_label_spec(s),
                None => "(unknown)"@,
            },
        ))
    }
}

pub open spec fn env_rows_spec(vars: Seq<(String, EnvSetting)>) -> Seq<(Seq<char>, Seq<char>, Seq<char>)>
    decreases vars.len(),
{
    if vars.len() == 0 {
        seq![]
    } else {
        let r = env_rows_spec(vars.drop_last());
        match env_row_spec(vars.last().0@, vars.last().1) {
            Some(x) => r.push(x),
            None => r,
        }
    }
}

pub open spec fn env_row_views(rows: Seq<EnvRow>) -> Seq<(Seq<char>, Seq<char>, Seq<char>)> {
    Seq::new(rows.len(), |i: int| (rows[i].name@, rows[i].value@, rows[i].source@))
}

/// The environment table: one row per variable, in the order given,
/// leaving out those that are neither set nor sourced.
pub fn build_env_rows(vars: &Vec<(String, EnvSetting)>) -> (rows: Vec<EnvRow>)
    ensures
        env_row_views(rows@) == env_rows_spec(vars@),
{
    let mut rows: Vec<EnvRow> = Vec::new();
    let mut i: usize = 0;
    assert(vars@.take(0) =~= Seq::<(String, EnvSetting)>::empty());
    assert(env_row_views(rows@) =~= Seq::<(Seq<char>, Seq<char>, Seq<char>)>::empty());
    while i < vars.len()
        invariant
            i <= vars.len(),
            env_row_views(rows@) == env_rows_spec(vars@.take(i as int)),
        decreases vars.len() - i,
    {
        assert(vars@.take(i + 1).drop_last() =~= vars@.take(i as int));
        assert(vars@.take(i + 1).last() == vars@[i as int]);
        let name = &vars[i].0;
        let e = &vars[i].1;
        let value: String = match &e.value {
            Some(v) => v.clone(),
            None => String::new(),
        };
        let empty = value.as_str().unicode_len() == 0;
        if !(empty && e.source.is_none()) {
            let source: String = match e.source {
                Some(s) => env_source_label(s).to_owned(),
                None => "(unknown)".to_owned(),
            };
            let shown: String = if empty { "<unset>".to_owned() } else { value };
            let ghost before = env_row_views(rows@);
            rows.push(EnvRow { name: name.clone(), value: shown, source });
            assert(env_row_views(rows@) =~= before.push(env_row_spec(name@, *e)->0));
        }
        i += 1;
    }
    assert(vars@.take(vars.len() as int) =~= vars@);
    rows
}

/// The report's input-method section.
#[derive(Debug, Clone)]
pub struct ImCtx {
    pub active: String,
    pub ibus: Option<String>,
    pub fcitx5: Option<String>,
    pub engines: Vec<String>,
}

pub open spec fn active_label(a: ActiveFramework) -> Seq<char> {
    match a {
        ActiveFramework::NoFramework => "none"@,
        ActiveFramework::Ibus => "IBus"@,
        ActiveFramework::Fcitx5 => "Fcitx5"@,
        ActiveFramework::Conflict => "conflict (both IBus and Fcitx5 active)"@,
    }
}

/// A daemon's line: whether it runs, and its version where known.
pub open spec fn daemon_line(running: bool, version: Option<Seq<char>>) -> Seq<char> {
    (if running { "running"@ } else { "not running"@ }) + match version {
        Some(v) => ", version "@ + v,
        None => seq![],
    }
}

pub open spec fn engine_line(e: EngineFact) -> Seq<char> {
    e.name@ + " ("@ + framework_debug_name(e.framework) + ")"@
}

fn daemon_text(running: bool, version: &Option<String>) -> (s: String)
    ensures
        s@ == daemon_line(running, crate::text::opt_view(*version)),
{
    let mut v = if running { chars_of("running") } else { chars_of("not running") };
    match version {
        Some(ver) => {
            append_str(&mut v, ", version ");
            append_str(&mut v, ver.as_str());
        },
        None => {},
    }
    string_of(&v)
}

/// The IM section's values: the active framework's name, each daemon's
/// line where it was probed, and one line per engine.
pub fn build_im(
    active: ActiveFramework,
    ibus: &Option<IbusFacts>,
    fcitx5: &Option<Fcitx5Facts>,
    engines: &Vec<EngineFact>,
) -> (c: ImCtx)
    ensures
        c.active@ == active_label(active),
        match *ibus {
            Some(f) => c.ibus matches Some(t) && t@ == daemon_line(f.daemon_running, crate::text::opt_view(f.version)),
            None => c.ibus is None,
        },
        match *fcitx5 {
            Some(f) => c.fcitx5 matches Some(t) && t@ == daemon_line(f.daemon_running, crate::text::opt_view(f.version)),
            None => c.fcitx5 is None,
        },
        c.engines@.len() == engines@.len(),
        forall|i: int| 0 <= i < engines@.len() ==> (#[trigger] c.engines@[i])@ == engine_line(engines@[i]),
{
    let active_text = match active {
        ActiveFramework::NoFramework => "none".to_owned(),
        ActiveFramework::Ibus => "IBus".to_owned(),
        ActiveFramework::Fcitx5 => "Fcitx5".to_owned(),
        ActiveFramework::Conflict => "conflict (both IBus and Fcitx5 active)".to_owned(),
    };
    let ibus_text = match ibus {
        Some(f) => Some(daemon_text(f.daemon_running, &f.version)),
        None => None,
    };
    let fcitx5_text = match fcitx5 {
        Some(f) => Some(daemon_text(f.daemon_running, &f.version)),
        None => None,
    };
    let mut lines_out: Vec<String> = Vec::new();
    let mut i: usize = 0;
    while i < engines.len()
        invariant
            i <= engines.len(),
            lines_out@.len() == i,
            forall|k: int| 0 <= k < i ==> (#[trigger] lines_out@[k])@ == engine_line(engines@[k]),
        decreases engines.len() - i,
    {
        let mut v = chars_of(engines[i].name.as_str());
        append_str(&mut v, " (");
        append_str(&mut v, framework_debug(engines[i].framework));
        append_str(&mut v, ")");
        lines_out.push(string_of(&v));
        i += 1;
    }
    ImCtx { active: active_text, ibus: ibus_text, fcitx5: fcitx5_text, engines: lines_out }
}

} // verus!
