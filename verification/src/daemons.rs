//! What the IBus and Fcitx5 detectors conclude from their probes (the
//! D-Bus name check, `pgrep`, `--version`, Fcitx5's configuration), and
//! how two detectors' reports on one daemon are merged.
use crate::fcitx5_config::{addon_enabled_from, addon_is_enabled, parse_profile_imes, parse_profile_spec};
use crate::resolve::{parse_first_pid, parse_ibus_version, parse_u32_spec};
use crate::text::{append_str, chars_of, decimal, lines, push_decimal, slice_of, string_of, string_views, trim};
use vstd::prelude::*;

verus! {

/// What is known of the IBus daemon.
#[derive(Debug, Clone)]
pub struct IbusFacts {
    pub version: Option<String>,
    pub daemon_running: bool,
    pub daemon_pid: Option<u32>,
    pub config_dir: Option<String>,
    pub registered_engines: Vec<String>,
}

/// What is known of the Fcitx5 daemon and its configuration.
#[derive(Debug, Clone)]
pub struct Fcitx5Facts {
    pub version: Option<String>,
    pub daemon_running: bool,
    pub daemon_pid: Option<u32>,
    pub config_dir: Option<String>,
    pub addons_enabled: Vec<String>,
    pub input_methods_configured: Vec<String>,
}

/// The first pid `pgrep` printed, if its output could be had.
pub open spec fn pid_of(pgrep: Option<Seq<char>>) -> Option<u32> {
    match pgrep {
        Some(out) => if lines(out).len() > 0 {
            parse_u32_spec(trim(lines(out)[0]))
        } else {
            None
        },
        None => None,
    }
}

/// The version `--version` output names: its first token starting with a
/// digit.
pub open spec fn version_spec(out: Option<Seq<char>>) -> Option<Seq<char>> {
    match out {
        Some(o) => crate::text::first_match(crate::text::line_tokens(o), crate::resolve::digit_pred()),
        None => None,
    }
}

pub open spec fn opt_seq(o: Option<&str>) -> Option<Seq<char>> {
    match o {
        Some(s) => Some(s@),
        None => None,
    }
}

/// The notes a daemon probe leaves: the bus name where D-Bus saw it, the
/// pid where `pgrep` found one.
pub open spec fn probe_notes(bus: Seq<char>, proc_name: Seq<char>, dbus: bool, pid: Option<u32>) -> Seq<Seq<char>> {
    (if dbus {
        seq!["dbus: "@ + bus + " has owner"@]
    } else {
        seq![]
    }) + match pid {
        Some(p) => seq!["pgrep: "@ + proc_name + " pid="@ + decimal(p as nat)],
        None => seq![],
    }
}

fn probe_notes_exec(bus: &str, proc_name: &str, dbus: bool, pid: Option<u32>) -> (v: Vec<String>)
    ensures
        string_views(v@) == probe_notes(bus@, proc_name@, dbus, pid),
{
    let mut v: Vec<String> = Vec::new();
    if dbus {
        let mut t = chars_of("dbus: ");
        append_str(&mut t, bus);
        append_str(&mut t, " has owner");
        v.push(string_of(&t));
    }
    let ghost first = string_views(v@);
    match pid {
        Some(p) => {
            let mut t = chars_of("pgrep: ");
            append_str(&mut t, proc_name);
            append_str(&mut t, " pid=");
            push_decimal(&mut t, p as usize);
            v.push(string_of(&t));
        },
        None => {},
    }
    assert(string_views(v@) =~= probe_notes(bus@, proc_name@, dbus, pid));
    v
}

fn first_pid(pgrep_stdout: Option<&str>) -> (p: Option<u32>)
    ensures
        p == pid_of(opt_seq(pgrep_stdout)),
{
    match pgrep_stdout {
        Some(out) => parse_first_pid(out),
        None => None,
    }
}

fn version_of(version_stdout: Option<&str>) -> (v: Option<String>)
    ensures
        crate::text::opt_view(v) == version_spec(opt_seq(version_stdout)),
{
    match version_stdout {
        Some(out) => parse_ibus_version(out),
        None => None,
    }
}

/// The IBus daemon detector's conclusion. `pgrep_stdout` and
/// `version_stdout` are the outputs of `pgrep -x ibus-daemon` and `ibus
/// --version` where those ran. The daemon counts as running where D-Bus
/// or `pgrep` says so. The config directory is `$HOME/.config/ibus`
/// (under the sysroot where one is set), none without `HOME`.
pub fn ibus_daemon_facts(
    dbus_said_running: bool,
    pgrep_stdout: Option<&str>,
    version_stdout: Option<&str>,
    home: Option<&str>,
    sysroot: Option<&str>,
) -> (r: (IbusFacts, Vec<String>))
    ensures
        r.0.daemon_pid == pid_of(opt_seq(pgrep_stdout)),
        r.0.daemon_running == (dbus_said_running || pid_of(opt_seq(pgrep_stdout)) is Some),
        crate::text::opt_view(r.0.version) == version_spec(opt_seq(version_stdout)),
        crate::text::opt_view(r.0.config_dir) == crate::detectors::home_subdir(opt_seq(home), opt_seq(sysroot), ".config/ibus"@),
        r.0.registered_engines@.len() == 0,
        string_views(r.1@) == probe_notes(
            "org.freedesktop.IBus"@,
            "ibus-daemon"@,
            dbus_said_running,
            pid_of(opt_seq(pgrep_stdout)),
        ),
{
    let pid = first_pid(pgrep_stdout);
    let version = version_of(version_stdout);
    let config_dir = crate::detectors::resolve_home_subdir(home, sysroot, ".config/ibus");
    let facts = IbusFacts {
        version,
        daemon_running: dbus_said_running || pid.is_some(),
        daemon_pid: pid,
        config_dir,
        registered_engines: Vec::new(),
    };
    (facts, probe_notes_exec("org.freedesktop.IBus", "ibus-daemon", dbus_said_running, pid))
}

/// The Fcitx5 daemon detector's conclusion, from `pgrep -x fcitx5` and
/// `fcitx5 --version` as for IBus; the config directory is
/// `$HOME/.config/fcitx5`.
pub fn fcitx5_daemon_facts(
    dbus_said_running: bool,
    pgrep_stdout: Option<&str>,
    version_stdout: Option<&str>,
    home: Option<&str>,
    sysroot: Option<&str>,
) -> (r: (Fcitx5Facts, Vec<String>))
    ensures
        r.0.daemon_pid == pid_of(opt_seq(pgrep_stdout)),
        r.0.daemon_running == (dbus_said_running || pid_of(opt_seq(pgrep_stdout)) is Some),
        crate::text::opt_view(r.0.version) == version_spec(opt_seq(version_stdout)),
        crate::text::opt_view(r.0.config_dir) == crate::detectors::home_subdir(opt_seq(home), opt_seq(sysroot), ".config/fcitx5"@),
        r.0.addons_enabled@.len() == 0,
        r.0.input_methods_configured@.len() == 0,
        string_views(r.1@) == probe_notes(
            "org.fcitx.Fcitx5"@,
            "fcitx5"@,
            dbus_said_running,
            pid_of(opt_seq(pgrep_stdout)),
        ),
{
    let pid = first_pid(pgrep_stdout);
    let version = version_of(version_stdout);
    let config_dir = crate::detectors::resolve_home_subdir(home, sysroot, ".config/fcitx5");
    let facts = Fcitx5Facts {
        version,
        daemon_running: dbus_said_running || pid.is_some(),
        daemon_pid: pid,
        config_dir,
        addons_enabled: Vec::new(),
        input_methods_configured: Vec::new(),
    };
    (facts, probe_notes_exec("org.fcitx.Fcitx5", "fcitx5", dbus_said_running, pid))
}

/// A `.conf` file name without its extension.
pub open spec fn conf_stem(name: Seq<char>) -> Seq<char> {
    name.take(name.len() - 5)
}

/// A file name with the extension `conf`, as `Path::extension` reads it.
pub open spec fn is_conf_name(name: Seq<char>) -> bool {
    crate::detectors::extension_of(name) == Some("conf"@)
}

/// A name with extension `conf` is its stem, a dot and `conf`: longer than
/// `.conf` itself, and ending in it.
proof fn lemma_conf_name(name: Seq<char>)
    ensures
        is_conf_name(name) <==> (name.len() > 5 && name.skip(name.len() - 5) == ".conf"@),
{
    reveal_strlit("conf");
    reveal_strlit(".conf");
    reveal_with_fuel(crate::detectors::extension_of, 6);
    if name.len() > 5 && name.skip(name.len() - 5) == ".conf"@ {
        let n = name.len() as int;
        assert(name[n - 1] == 'f' && name[n - 2] == 'n' && name[n - 3] == 'o' && name[n - 4] == 'c' && name[n - 5] == '.') by {
            assert(name.skip(n - 5)[4] == name[n - 1]);
            assert(name.skip(n - 5)[3] == name[n - 2]);
            assert(name.skip(n - 5)[2] == name[n - 3]);
            assert(name.skip(n - 5)[1] == name[n - 4]);
            assert(name.skip(n - 5)[0] == name[n - 5]);
        }
        let d1 = name.drop_last();
        let d2 = d1.drop_last();
        let d3 = d2.drop_last();
        let d4 = d3.drop_last();
        assert(d4.last() == '.');
        assert(crate::detectors::extension_of(d4) == Some(Seq::<char>::empty()));
        assert(crate::detectors::extension_of(name) == Some(seq!['c', 'o', 'n', 'f']));
        assert(seq!['c', 'o', 'n', 'f'] =~= "conf"@);
    }
    if is_conf_name(name) {
        let n = name.len() as int;
        let c = seq!['c', 'o', 'n', 'f'];
        assert("conf"@ =~= c);
        assert(n > 1);
        assert(name.last() != '.');
        let d1 = name.drop_last();
        let e1 = crate::detectors::extension_of(d1);
        assert(e1 is Some && e1->0.push(name.last()) == c);
        assert(e1->0.push(name.last())[e1->0.len() as int] == name.last());
        assert(e1->0.len() == 3);
        assert(name.last() == 'f');
        assert(e1->0 =~= c.take(3));
        assert(d1.len() > 1);
        assert(d1.last() != '.') by {
            if d1.last() == '.' {
                assert(e1->0.len() == 0);
            }
        }
        let d2 = d1.drop_last();
        let e2 = crate::detectors::extension_of(d2);
        assert(e2 is Some && e2->0.push(d1.last()) == e1->0);
        assert(e2->0.push(d1.last())[2] == d1.last());
        assert(d1.last() == 'n');
        assert(e2->0 =~= c.take(2));
        assert(d2.len() > 1);
        assert(d2.last() != '.') by {
            if d2.last() == '.' {
                assert(e2->0.len() == 0);
            }
        }
        let d3 = d2.drop_last();
        let e3 = crate::detectors::extension_of(d3);
        assert(e3 is Some && e3->0.push(d2.last()) == e2->0);
        assert(e3->0.push(d2.last())[1] == d2.last());
        assert(d2.last() == 'o');
        assert(e3->0 =~= c.take(1));
        assert(d3.len() > 1);
        assert(d3.last() != '.') by {
            if d3.last() == '.' {
                assert(e3->0.len() == 0);
            }
        }
        let d4 = d3.drop_last();
        let e4 = crate::detectors::extension_of(d4);
        assert(e4 is Some && e4->0.push(d3.last()) == e3->0);
        assert(e4->0.push(d3.last())[0] == d3.last());
        assert(d3.last() == 'c');
        assert(e4->0.len() == 0);
        assert(d4.len() > 1);
        assert(d4.last() == '.') by {
            if d4.last() != '.' {
                let e5 = crate::detectors::extension_of(d4.drop_last());
                assert(e5 is Some && e5->0.push(d4.last()) == e4->0);
                assert(e5->0.push(d4.last()).len() == e5->0.len() + 1);
            }
        }
        assert(name[n - 2] == d1.last());
        assert(name[n - 3] == d2.last());
        assert(name[n - 4] == d3.last());
        assert(name[n - 5] == d4.last());
        assert(name.skip(n - 5) =~= ".conf"@);
    }
}

/// The enabled addons, in the files' order: each file named `*.conf`
/// that could be read and whose body leaves the addon enabled gives its
/// stem; other names are passed over.
pub open spec fn enabled_from(files: Seq<(Seq<char>, Option<Seq<char>>)>) -> Seq<Seq<char>>
    decreases files.len(),
{
    if files.len() == 0 {
        seq![]
    } else {
        let r = enabled_from(files.drop_last());
        let f = files.last();
        match f.1 {
            Some(body) => if is_conf_name(f.0) && addon_enabled_from(lines(body)) {
                r.push(conf_stem(f.0))
            } else {
                r
            },
            None => r,
        }
    }
}

pub open spec fn file_views(v: Seq<(String, Option<String>)>) -> Seq<(Seq<char>, Option<Seq<char>>)> {
    Seq::new(
        v.len(),
        |i: int|
            (
                v[i].0@,
                match v[i].1 {
                    Some(b) => Some(b@),
                    None => None,
                },
            ),
    )
}

/// The addons the `conf/*.conf` files leave enabled. `files` are the
/// directory's file names (in the order they are read) with their bodies,
/// `None` where a file could not be read; names without the extension
/// `conf` are passed over.
pub fn enabled_addons(files: &Vec<(String, Option<String>)>) -> (r: Vec<String>)
    ensures
        string_views(r@) == enabled_from(file_views(files@)),
{
    let ghost fv = file_views(files@);
    let mut out: Vec<String> = Vec::new();
    let mut i: usize = 0;
    assert(fv.take(0) =~= Seq::<(Seq<char>, Option<Seq<char>>)>::empty());
    while i < files.len()
        invariant
            i <= files.len(),
            fv == file_views(files@),
            string_views(out@) == enabled_from(fv.take(i as int)),
        decreases files.len() - i,
    {
        assert(fv.take(i + 1).drop_last() =~= fv.take(i as int));
        assert(fv.take(i + 1).last() == fv[i as int]);
        match &files[i].1 {
            Some(body) => {
                let n = chars_of(files[i].0.as_str());
                proof {
                    lemma_conf_name(n@);
                }
                let conf = n.len() > 5 && n[n.len() - 5] == '.' && n[n.len() - 4] == 'c' && n[n.len() - 3] == 'o'
                    && n[n.len() - 2] == 'n' && n[n.len() - 1] == 'f';
                proof {
                    reveal_strlit(".conf");
                    if n.len() > 5 {
                        let t = n@.skip(n.len() - 5);
                        if conf {
                            assert(t =~= ".conf"@);
                        } else {
                            if t == ".conf"@ {
                                assert(t[0] == n@[n.len() - 5]);
                                assert(t[1] == n@[n.len() - 4]);
                                assert(t[2] == n@[n.len() - 3]);
                                assert(t[3] == n@[n.len() - 2]);
                                assert(t[4] == n@[n.len() - 1]);
                            }
                        }
                    }
                }
                if conf && addon_is_enabled(body.as_str()) {
                    let stem = slice_of(&n, 0, n.len() - 5);
                    assert(stem@ =~= conf_stem(files@[i as int].0@));
                    let ghost before = string_views(out@);
                    out.push(string_of(&stem));
                    assert(string_views(out@) =~= before.push(conf_stem(files@[i as int].0@)));
                }
            },
            None => {},
        }
        i += 1;
    }
    assert(fv.take(files.len() as int) =~= fv);
    out
}

/// The Fcitx5 configuration detector's conclusion: the configured input
/// methods from `profile` (none where it could not be read) and the
/// enabled addons; nothing at all where both are empty.
pub fn fcitx5_config_facts(
    profile_body: Option<&str>,
    addons_enabled: Vec<String>,
    cfg_dir: String,
) -> (r: Option<(Fcitx5Facts, Vec<String>)>)
    ensures
        ({
            let ims = match profile_body {
                Some(b) => parse_profile_spec(b@),
                None => Seq::<Seq<char>>::empty(),
            };
            if ims.len() == 0 && addons_enabled@.len() == 0 {
                r is None
            } else {
                r matches Some(x) && {
                    &&& string_views(x.0.input_methods_configured@) == ims
                    &&& x.0.addons_enabled@ == addons_enabled@
                    &&& x.0.config_dir matches Some(d) && d@ == cfg_dir@
                    &&& !x.0.daemon_running
                    &&& x.0.daemon_pid is None
                    &&& x.0.version is None
                    &&& string_views(x.1@) == seq!["parsed "@ + cfg_dir@]
                }
            }
        }),
{
    let ims: Vec<String> = match profile_body {
        Some(b) => parse_profile_imes(b),
        None => {
            let e: Vec<String> = Vec::new();
            assert(string_views(e@) =~= Seq::<Seq<char>>::empty());
            e
        },
    };
    if ims.len() == 0 && addons_enabled.len() == 0 {
        return None;
    }
    let mut note = chars_of("parsed ");
    append_str(&mut note, cfg_dir.as_str());
    let notes = vec![string_of(&note)];
    assert(string_views(notes@) =~= seq!["parsed "@ + cfg_dir@]);
    Some((
        Fcitx5Facts {
            version: None,
            daemon_running: false,
            daemon_pid: None,
            config_dir: Some(cfg_dir),
            addons_enabled,
            input_methods_configured: ims,
        },
        notes,
    ))
}


// ------------------------------------------------------------ merging

/// Two IBus reports merged field by field: an absent or empty field is
/// filled from the incoming report, and the daemon counts as running if
/// either report saw it running.
pub open spec fn ibus_merged(cur: IbusFacts, inc: IbusFacts) -> IbusFacts {
    IbusFacts {
        version: if cur.version is None && inc.version is Some { inc.version } else { cur.version },
        daemon_running: cur.daemon_running || inc.daemon_running,
        daemon_pid: if cur.daemon_pid is None && inc.daemon_pid is Some { inc.daemon_pid } else { cur.daemon_pid },
        config_dir: if cur.config_dir is None && inc.config_dir is Some { inc.config_dir } else { cur.config_dir },
        registered_engines: if cur.registered_engines@.len() == 0 && inc.registered_engines@.len() > 0 {
            inc.registered_engines
        } else {
            cur.registered_engines
        },
    }
}

/// Two Fcitx5 reports merged by the same rule as IBus's.
pub open spec fn fcitx5_merged(cur: Fcitx5Facts, inc: Fcitx5Facts) -> Fcitx5Facts {
    Fcitx5Facts {
        version: if cur.version is None && inc.version is Some { inc.version } else { cur.version },
        daemon_running: cur.daemon_running || inc.daemon_running,
        daemon_pid: if cur.daemon_pid is None && inc.daemon_pid is Some { inc.daemon_pid } else { cur.daemon_pid },
        config_dir: if cur.config_dir is None && inc.config_dir is Some { inc.config_dir } else { cur.config_dir },
        addons_enabled: if cur.addons_enabled@.len() == 0 && inc.addons_enabled@.len() > 0 {
            inc.addons_enabled
        } else {
            cur.addons_enabled
        },
        input_methods_configured: if cur.input_methods_configured@.len() == 0 && inc.input_methods_configured@.len() > 0 {
            inc.input_methods_configured
        } else {
            cur.input_methods_configured
        },
    }
}

/// Folds one detector's IBus report into the report gathered so far: an
/// absent report changes nothing, a first report is taken whole, and two
/// reports are merged field by field.
pub fn merge_ibus_facts(current: &mut Option<IbusFacts>, incoming: Option<IbusFacts>)
    ensures
        *final(current) == match (*old(current), incoming) {
            (c, None) => c,
            (None, Some(i)) => Some(i),
            (Some(c), Some(i)) => Some(ibus_merged(c, i)),
        },
{
    match incoming {
        None => {},
        Some(inc) => {
            match current.take() {
                None => {
                    *current = Some(inc);
                },
                Some(cur) => {
                    let IbusFacts { version, daemon_running, daemon_pid, config_dir, registered_engines } = cur;
                    let version = if version.is_none() && inc.version.is_some() { inc.version } else { version };
                    let daemon_pid = if daemon_pid.is_none() && inc.daemon_pid.is_some() { inc.daemon_pid } else { daemon_pid };
                    let config_dir = if config_dir.is_none() && inc.config_dir.is_some() { inc.config_dir } else { config_dir };
                    let registered_engines = if registered_engines.len() == 0 && inc.registered_engines.len() > 0 {
                        inc.registered_engines
                    } else {
                        registered_engines
                    };
                    *current = Some(IbusFacts {
                        version,
                        daemon_running: daemon_running || inc.daemon_running,
                        daemon_pid,
                        config_dir,
                        registered_engines,
                    });
                },
            }
        },
    }
}

/// Folds one detector's Fcitx5 report into the report gathered so far,
/// as `merge_ibus_facts` does for IBus.
pub fn merge_fcitx5_facts(current: &mut Option<Fcitx5Facts>, incoming: Option<Fcitx5Facts>)
    ensures
        *final(current) == match (*old(current), incoming) {
            (c, None) => c,
            (None, Some(i)) => Some(i),
            (Some(c), Some(i)) => Some(fcitx5_merged(c, i)),
        },
{
    match incoming {
        None => {},
        Some(inc) => {
            match current.take() {
                None => {
                    *current = Some(inc);
                },
                Some(cur) => {
                    let Fcitx5Facts {
                        version,
                        daemon_running,
                        daemon_pid,
                        config_dir,
                        addons_enabled,
                        input_methods_configured,
                    } = cur;
                    let version = if version.is_none() && inc.version.is_some() { inc.version } else { version };
                    let daemon_pid = if daemon_pid.is_none() && inc.daemon_pid.is_some() { inc.daemon_pid } else { daemon_pid };
                    let config_dir = if config_dir.is_none() && inc.config_dir.is_some() { inc.config_dir } else { config_dir };
                    let addons_enabled = if addons_enabled.len() == 0 && inc.addons_enabled.len() > 0 {
                        inc.addons_enabled
                    } else {
                        addons_enabled
                    };
                    let input_methods_configured = if input_methods_configured.len() == 0
                        && inc.input_methods_configured.len() > 0 {
                        inc.input_methods_configured
                    } else {
                        input_methods_configured
                    };
                    *current = Some(Fcitx5Facts {
                        version,
                        daemon_running: daemon_running || inc.daemon_running,
                        daemon_pid,
                        config_dir,
                        addons_enabled,
                        input_methods_configured,
                    });
                },
            }
        },
    }
}

/// A later IBus report never erases what an earlier one found: a field
/// set before stays as it was, a field missing before (or an empty list
/// of registered engines) is taken from the later report, the daemon
/// counts as running exactly when either report says so, and merging a
/// report into itself changes nothing.
pub proof fn law_ibus_merge_keeps_known(cur: IbusFacts, inc: IbusFacts)
    ensures
        ibus_merged(cur, cur) == cur,
        cur.version is Some ==> ibus_merged(cur, inc).version == cur.version,
        cur.daemon_pid is Some ==> ibus_merged(cur, inc).daemon_pid == cur.daemon_pid,
        cur.config_dir is Some ==> ibus_merged(cur, inc).config_dir == cur.config_dir,
        cur.registered_engines@.len() > 0 ==> ibus_merged(cur, inc).registered_engines == cur.registered_engines,
        cur.daemon_running ==> ibus_merged(cur, inc).daemon_running,
        inc.daemon_running ==> ibus_merged(cur, inc).daemon_running,
        !cur.daemon_running && !inc.daemon_running ==> !ibus_merged(cur, inc).daemon_running,
        cur.version is None ==> ibus_merged(cur, inc).version == inc.version,
        cur.daemon_pid is None ==> ibus_merged(cur, inc).daemon_pid == inc.daemon_pid,
        cur.config_dir is None ==> ibus_merged(cur, inc).config_dir == inc.config_dir,
        cur.registered_engines@.len() == 0 ==> ibus_merged(cur, inc).registered_engines@ == inc.registered_engines@,
{
}


/// The same for Fcitx5: a later report never erases what an earlier one
/// found, fills in whatever the earlier one lacked (a missing value, an
/// empty list of addons or of configured input methods), and the daemon
/// counts as running exactly when either report says so.
pub proof fn law_fcitx5_merge_keeps_known(cur: Fcitx5Facts, inc: Fcitx5Facts)
    ensures
        fcitx5_merged(cur, cur) == cur,
        cur.version is Some ==> fcitx5_merged(cur, inc).version == cur.version,
        cur.daemon_pid is Some ==> fcitx5_merged(cur, inc).daemon_pid == cur.daemon_pid,
        cur.config_dir is Some ==> fcitx5_merged(cur, inc).config_dir == cur.config_dir,
        cur.addons_enabled@.len() > 0 ==> fcitx5_merged(cur, inc).addons_enabled == cur.addons_enabled,
        cur.input_methods_configured@.len() > 0 ==> fcitx5_merged(cur, inc).input_methods_configured == cur.input_methods_configured,
        cur.daemon_running ==> fcitx5_merged(cur, inc).daemon_running,
        inc.daemon_running ==> fcitx5_merged(cur, inc).daemon_running,
        !cur.daemon_running && !inc.daemon_running ==> !fcitx5_merged(cur, inc).daemon_running,
        cur.version is None ==> fcitx5_merged(cur, inc).version == inc.version,
        cur.daemon_pid is None ==> fcitx5_merged(cur, inc).daemon_pid == inc.daemon_pid,
        cur.config_dir is None ==> fcitx5_merged(cur, inc).config_dir == inc.config_dir,
        cur.addons_enabled@.len() == 0 ==> fcitx5_merged(cur, inc).addons_enabled@ == inc.addons_enabled@,
        cur.input_methods_configured@.len() == 0 ==> fcitx5_merged(cur, inc).input_methods_configured@ == inc.input_methods_configured@,
{
}

} // verus!
