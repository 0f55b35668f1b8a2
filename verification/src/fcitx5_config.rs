//! Fcitx5's on-disk configuration: the input methods listed in `profile`
//! and whether an addon's `conf/<addon>.conf` leaves it enabled.
use crate::text::{
    chars_of, contains_vec, eq_str, has_prefix_str, lines, lower_seq, remove_all, remove_all_exec,
    seq_eq, slice_of, split_lines, split_once, split_once_exec, starts_with, string_views,
    strings_of, to_lower, trim, trim_vec, views,
};
use vstd::prelude::*;

verus! {

/// Scan state over `profile`: the `DefaultIM` of `[Groups/0]`, the item
/// names of `[Groups/0/Items/*]` in order without repeats, and the
/// current section.
pub type ProfileScan = (Option<Seq<char>>, Seq<Seq<char>>, Seq<char>);

/// A `[section]` header line gives the section name.
pub open spec fn section_of(line: Seq<char>) -> Option<Seq<char>> {
    if line.len() >= 2 && line[0] == '[' && line.last() == ']' {
        Some(line.subrange(1, line.len() - 1))
    } else {
        None
    }
}

pub open spec fn profile_step(st: ProfileScan, raw: Seq<char>) -> ProfileScan {
    let line = trim(raw);
    if line.len() == 0 || line[0] == '#' {
        st
    } else if section_of(line) is Some {
        (st.0, st.1, section_of(line)->Some_0)
    } else {
        match split_once(line, '=') {
            None => st,
            Some(kv) => {
                let key = trim(kv.0);
                let val = trim(kv.1);
                if st.2 == "Groups/0"@ && key == "DefaultIM"@ && val.len() > 0 {
                    (Some(val), st.1, st.2)
                } else if starts_with(st.2, "Groups/0/Items/"@) && key == "Name"@ && val.len() > 0 {
                    if st.1.contains(val) {
                        st
                    } else {
                        (st.0, st.1.push(val), st.2)
                    }
                } else {
                    st
                }
            },
        }
    }
}

pub open spec fn profile_scan(ls: Seq<Seq<char>>) -> ProfileScan
    decreases ls.len(),
{
    if ls.len() == 0 {
        (None, seq![], seq![])
    } else {
        profile_step(profile_scan(ls.drop_last()), ls.last())
    }
}

/// The configured input methods, `DefaultIM` first.
pub open spec fn parse_profile_spec(body: Seq<char>) -> Seq<Seq<char>> {
    let st = profile_scan(lines(body));
    match st.0 {
        None => st.1,
        Some(d) => seq![d] + remove_all(st.1, d),
    }
}

/// Parses a Fcitx5 `profile` into its input methods, the group's
/// `DefaultIM` moved (or added) to the front.
#[verifier::loop_isolation(false)]
pub fn parse_profile_imes(body: &str) -> (r: Vec<String>)
    ensures
        string_views(r@) == parse_profile_spec(body@),
{
    let chars = chars_of(body);
    let ls = split_lines(&chars);
    let ghost all = views(ls@);
    let mut default_im: Option<Vec<char>> = None;
    let mut names: Vec<Vec<char>> = Vec::new();
    let mut section: Vec<char> = Vec::new();
    let mut i: usize = 0;
    assert(all.take(0) =~= Seq::<Seq<char>>::empty());
    assert(views(names@) =~= Seq::<Seq<char>>::empty());
    while i < ls.len()
        invariant
            i <= ls.len(),
            all == views(ls@),
            profile_scan(all.take(i as int)) == (
                match default_im {
                    Some(d) => Some(d@),
                    None => None::<Seq<char>>,
                },
                views(names@),
                section@,
            ),
        decreases ls.len() - i,
    {
        assert(all.take(i + 1).drop_last() =~= all.take(i as int));
        assert(all.take(i + 1).last() == ls@[i as int]@);
        let line = trim_vec(&ls[i]);
        if line.len() == 0 || line[0] == '#' {
        } else if line.len() >= 2 && line[0] == '[' && line[line.len() - 1] == ']' {
            section = slice_of(&line, 1, line.len() - 1);
        } else {
            match split_once_exec(&line, '=') {
                None => {},
                Some((k, v)) => {
                    let key = trim_vec(&k);
                    let val = trim_vec(&v);
                    if eq_str(&section, "Groups/0") && eq_str(&key, "DefaultIM") && val.len() > 0 {
                        default_im = Some(val);
                    } else if has_prefix_str(&section, "Groups/0/Items/") && eq_str(&key, "Name")
                        && val.len() > 0 {
                        if !contains_vec(&names, &val) {
                            let ghost o = views(names@);
                            names.push(val);
                            assert(views(names@) =~= o.push(val@));
                        }
                    }
                },
            }
        }
        i += 1;
    }
    assert(all.take(ls.len() as int) =~= all);
    match default_im {
        None => strings_of(&names),
        Some(d) => {
            let rest = remove_all_exec(&names, &d);
            let mut out: Vec<Vec<char>> = Vec::new();
            out.push(d);
            let ghost o = views(out@);
            assert(o =~= seq![d@]);
            let mut j: usize = 0;
            while j < rest.len()
                invariant
                    j <= rest.len(),
                    views(out@) == o + views(rest@).take(j as int),
                decreases rest.len() - j,
            {
                let c = slice_of(&rest[j], 0, rest[j].len());
                let ghost before = views(out@);
                assert(c@ =~= views(rest@)[j as int]);
                out.push(c);
                assert(views(out@) =~= before.push(c@));
                assert(views(rest@).take(j + 1) =~= views(rest@).take(j as int).push(rest@[j as int]@));
                j += 1;
                assert(views(out@) =~= o + views(rest@).take(j as int));
            }
            assert(views(rest@).take(rest.len() as int) =~= views(rest@));
            strings_of(&out)
        },
    }
}

/// What one line of an addon `.conf` says about `Enabled`, if anything.
pub open spec fn addon_decision(raw: Seq<char>) -> Option<bool> {
    let l = trim(raw);
    if l.len() == 0 || l[0] == '#' || l[0] == '[' {
        None
    } else {
        match split_once(l, '=') {
            Some(kv) => if trim(kv.0) == "Enabled"@ {
                Some(lower_seq(trim(kv.1)) != lower_seq("false"@))
            } else {
                None
            },
            None => None,
        }
    }
}

/// The first `Enabled=` line decides; with none the addon is enabled.
pub open spec fn addon_enabled_from(ls: Seq<Seq<char>>) -> bool
    decreases ls.len(),
{
    if ls.len() == 0 {
        true
    } else {
        match addon_decision(ls[0]) {
            Some(b) => b,
            None => addon_enabled_from(ls.drop_first()),
        }
    }
}

/// Whether an addon `.conf` body leaves the addon enabled: only
/// `Enabled=False` (any case) disables it.
#[verifier::loop_isolation(false)]
pub fn addon_is_enabled(body: &str) -> (b: bool)
    ensures
        b == addon_enabled_from(lines(body@)),
{
    let chars = chars_of(body);
    let ls = split_lines(&chars);
    let ghost all = views(ls@);
    let f = chars_of("false");
    let fl = to_lower(&f);
    let mut i: usize = 0;
    assert(all.skip(0) =~= all);
    while i < ls.len()
        invariant
            i <= ls.len(),
            all == views(ls@),
            addon_enabled_from(all) == addon_enabled_from(all.skip(i as int)),
        decreases ls.len() - i,
    {
        let ghost rest = all.skip(i as int);
        assert(rest[0] == ls@[i as int]@);
        assert(rest.drop_first() =~= all.skip(i + 1));
        let line = trim_vec(&ls[i]);
        if line.len() == 0 || line[0] == '#' || line[0] == '[' {
        } else {
            match split_once_exec(&line, '=') {
                Some((k, v)) => {
                    let key = trim_vec(&k);
                    if eq_str(&key, "Enabled") {
                        let val = trim_vec(&v);
                        let vl = to_lower(&val);
                        return !seq_eq(&vl, &fl);
                    }
                },
                None => {},
            }
        }
        i += 1;
    }
    assert(all.skip(ls.len() as int) =~= Seq::<Seq<char>>::empty());
    true
}

} // verus!
