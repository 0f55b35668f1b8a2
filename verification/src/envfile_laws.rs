//! What `EnvFileDoc::render` writes, `EnvFileDoc::parse` reads back; a
//! rendered file is stable under another read and write, a repeated set
//! changes nothing, and an unset undoes a set.
use crate::executor::edited_doc;
use crate::envfile::{block_pairs, block_step, block_text, collapse_nl, ensure_nl, entries_text, format_line_spec, is_key_char, join_nl, line_body, parse_line_spec, parse_value, render_spec, scan, scan_step, spec_parse, strip_lead, strip_trail, trim_matches, valid_key, EnvFileDoc, EnvFileDocView, EnvFileErrorView, Format, ParseState, ScanParts, MANAGED_HINT, MARKER_END, MARKER_START};
use crate::managed::{lemma_lt_irreflexive, lemma_pairs_map_sorted, lemma_sorted_unique, pairs_map, seq_lt, sorted};
use crate::text::{is_ws, lemma_find_char, lemma_trim_end_take, lemma_trim_start_skip, lines, lines_acc, split_once, strip_cr, trim, trim_end, trim_start};
use vstd::prelude::*;

verus! {

broadcast use vstd::string::group_string_axioms;

/// A line the parser takes for a block marker.
pub open spec fn is_marker(l: Seq<char>) -> bool {
    trim(l) == MARKER_START@ || trim(l) == MARKER_END@
}

/// No line of `s` is a block marker.
pub open spec fn marker_free(s: Seq<char>) -> bool {
    forall|i: int| 0 <= i < lines(s).len() ==> !is_marker(#[trigger] lines(s)[i])
}

/// A value that is written and read back unchanged: it is a fixed point of
/// the parser's unquoting and it holds no line break.
pub open spec fn round_trip_value(v: Seq<char>) -> bool {
    parse_value(v) == v && !v.contains('\n')
}

/// A document whose rendering parses back to the same assignments: the
/// keys are valid, the values survive unquoting, and no line above or
/// below the block (each ended by a newline, as written) is a marker.
pub open spec fn round_trip_doc(d: EnvFileDocView) -> bool {
    &&& sorted(d.entries)
    &&& good_entries(d.entries)
    &&& marker_free(ensure_nl(d.prefix))
    &&& marker_free(ensure_nl(d.suffix))
}

// ------------------------------------------------------------------ lines

proof fn lemma_lines_concat(a: Seq<char>, b: Seq<char>, cur: Seq<char>)
    requires
        a.len() > 0,
        a.last() == '\n',
    ensures
        lines_acc(a + b, cur) == lines_acc(a, cur) + lines(b),
    decreases a.len(),
{
    assert((a + b).drop_first() =~= a.drop_first() + b);
    if a[0] == '\n' {
        if a.len() == 1 {
            assert(a.drop_first() + b =~= b);
            assert(lines_acc(a.drop_first(), seq![]) =~= Seq::<Seq<char>>::empty());
            assert(lines_acc(a, cur) =~= seq![strip_cr(cur)]);
        } else {
            lemma_lines_concat(a.drop_first(), b, seq![]);
        }
    } else {
        lemma_lines_concat(a.drop_first(), b, cur.push(a[0]));
    }
}

proof fn lemma_lines_append(a: Seq<char>, b: Seq<char>)
    requires
        a.len() == 0 || a.last() == '\n',
    ensures
        lines(a + b) == lines(a) + lines(b),
{
    if a.len() == 0 {
        assert(a + b =~= b);
        assert(lines(a) =~= Seq::<Seq<char>>::empty());
        assert(lines(a) + lines(b) =~= lines(b));
    } else {
        lemma_lines_concat(a, b, seq![]);
    }
}

proof fn lemma_line_nl_acc(x: Seq<char>, cur: Seq<char>)
    requires
        !x.contains('\n'),
        !cur.contains('\n'),
    ensures
        lines_acc(x + seq!['\n'], cur) == seq![strip_cr(cur + x)],
    decreases x.len(),
{
    if x.len() == 0 {
        assert(x + seq!['\n'] =~= seq!['\n']);
        assert(cur + x =~= cur);
        assert(lines_acc(seq!['\n'].drop_first(), seq![]) =~= Seq::<Seq<char>>::empty());
        assert(lines_acc(seq!['\n'], cur) =~= seq![strip_cr(cur)]);
    } else {
        assert(x[0] != '\n') by {
            assert(x.contains(x[0]));
        }
        assert((x + seq!['\n']).drop_first() =~= x.drop_first() + seq!['\n']);
        assert(!x.drop_first().contains('\n')) by {
            if x.drop_first().contains('\n') {
                let i = choose|i: int| 0 <= i < x.drop_first().len() && x.drop_first()[i] == '\n';
                assert(x[i + 1] == '\n');
            }
        }
        assert(!cur.push(x[0]).contains('\n')) by {
            if cur.push(x[0]).contains('\n') {
                let i = choose|i: int| 0 <= i < cur.push(x[0]).len() && cur.push(x[0])[i] == '\n';
                if i < cur.len() {
                    assert(cur[i] == '\n');
                }
            }
        }
        lemma_line_nl_acc(x.drop_first(), cur.push(x[0]));
        assert(cur.push(x[0]) + x.drop_first() =~= cur + x);
    }
}

/// A line without `\n` and without a trailing `\r`, ended by `\n`, reads
/// back as itself.
proof fn lemma_line_nl(x: Seq<char>)
    requires
        !x.contains('\n'),
        x.len() == 0 || x.last() != '\r',
    ensures
        lines(x + seq!['\n']) == seq![x],
{
    lemma_line_nl_acc(x, seq![]);
    assert(Seq::<char>::empty() + x =~= x);
}

// ------------------------------------------------------------------ collapse

pub open spec fn all_nl(q: Seq<char>) -> bool {
    forall|i: int| 0 <= i < q.len() ==> q[i] == '\n'
}

proof fn lemma_collapse_after(p: Seq<char>, q: Seq<char>)
    requires
        p.len() >= 2,
        p.last() == '\n',
        p[p.len() - 2] != '\n',
    ensures
        collapse_nl(p + q) == (if all_nl(q) {
            p
        } else {
            p + collapse_nl(q)
        }),
    decreases q.len(),
{
    let s = p + q;
    if q.len() == 0 {
        assert(s =~= p);
    } else if s.last() == '\n' && s[s.len() - 2] == '\n' {
        let q2 = q.drop_last();
        assert(s.drop_last() =~= p + q2);
        lemma_collapse_after(p, q2);
        if q.len() == 1 {
            assert(s[s.len() - 2] == p.last());
            assert(q[0] == s.last());
            assert(all_nl(q2));
            assert(all_nl(q));
        } else {
            assert(q[q.len() - 2] == s[s.len() - 2]);
            if all_nl(q2) {
                assert(q.last() == s.last());
                assert forall|i: int| 0 <= i < q.len() implies q[i] == '\n' by {
                    if i < q2.len() {
                        assert(q[i] == q2[i]);
                    }
                }
            } else {
                assert(!all_nl(q)) by {
                    let i = choose|i: int| 0 <= i < q2.len() && q2[i] != '\n';
                    assert(q[i] != '\n');
                }
            }
        }
    } else {
        if q.len() == 1 {
            assert(s[s.len() - 2] == p.last());
            assert(q[0] != '\n');
        } else {
            assert(q[q.len() - 2] == s[s.len() - 2]);
        }
        assert(!all_nl(q)) by {
            if q.last() == '\n' {
                assert(q[q.len() - 2] != '\n');
            }
        }
    }
}

proof fn lemma_collapse_marker_free(s: Seq<char>)
    requires
        marker_free(s),
    ensures
        marker_free(collapse_nl(s)),
    decreases s.len(),
{
    if s.len() >= 2 && s.last() == '\n' && s[s.len() - 2] == '\n' {
        let t = s.drop_last();
        assert(s =~= t + seq!['\n']);
        lemma_lines_append(t, seq!['\n']);
        assert(lines(seq!['\n']) =~= seq![Seq::<char>::empty()]) by {
            lemma_line_nl(Seq::<char>::empty());
            assert(Seq::<char>::empty() + seq!['\n'] =~= seq!['\n']);
        }
        assert forall|i: int| 0 <= i < lines(t).len() implies !is_marker(#[trigger] lines(t)[i]) by {
            assert(lines(s)[i] == lines(t)[i]);
        }
        lemma_collapse_marker_free(t);
    }
}

// ------------------------------------------------------------------ trim shape

proof fn lemma_trim_id(s: Seq<char>)
    requires
        s.len() == 0 || (!is_ws(s[0]) && !is_ws(s.last())),
    ensures
        trim(s) == s,
{
    lemma_trim_start_skip(s, 0);
    assert(s.skip(0) =~= s);
    lemma_trim_end_take(s, s.len() as int);
    assert(s.take(s.len() as int) =~= s);
}

proof fn lemma_trim_start_shape(s: Seq<char>) -> (a: int)
    ensures
        0 <= a <= s.len(),
        trim_start(s) == s.skip(a),
        a < s.len() ==> !is_ws(s[a]),
    decreases s.len(),
{
    if s.len() > 0 && is_ws(s[0]) {
        let a0 = lemma_trim_start_shape(s.drop_first());
        assert(s.drop_first().skip(a0) =~= s.skip(a0 + 1));
        a0 + 1
    } else {
        assert(s.skip(0) =~= s);
        0
    }
}

proof fn lemma_trim_end_shape(s: Seq<char>) -> (b: int)
    ensures
        0 <= b <= s.len(),
        trim_end(s) == s.take(b),
        b > 0 ==> !is_ws(s[b - 1]),
    decreases s.len(),
{
    if s.len() > 0 && is_ws(s.last()) {
        let b0 = lemma_trim_end_shape(s.drop_last());
        assert(s.drop_last().take(b0) =~= s.take(b0));
        b0
    } else {
        assert(s.take(s.len() as int) =~= s);
        s.len() as int
    }
}

proof fn lemma_trim_end_full(s: Seq<char>) -> (b: int)
    ensures
        0 <= b <= s.len(),
        trim_end(s) == s.take(b),
        b > 0 ==> !is_ws(s[b - 1]),
        forall|j: int| b <= j < s.len() ==> is_ws(#[trigger] s[j]),
    decreases s.len(),
{
    if s.len() > 0 && is_ws(s.last()) {
        let d = s.drop_last();
        let b0 = lemma_trim_end_full(d);
        assert(d.take(b0) =~= s.take(b0));
        assert forall|j: int| b0 <= j < s.len() implies is_ws(#[trigger] s[j]) by {
            if j < s.len() - 1 {
                assert(d[j] == s[j]);
            }
        }
        b0
    } else {
        assert(s.take(s.len() as int) =~= s);
        s.len() as int
    }
}

proof fn lemma_trim_start_full(s: Seq<char>) -> (a: int)
    ensures
        0 <= a <= s.len(),
        trim_start(s) == s.skip(a),
        a < s.len() ==> !is_ws(s[a]),
        forall|j: int| 0 <= j < a ==> is_ws(#[trigger] s[j]),
    decreases s.len(),
{
    if s.len() > 0 && is_ws(s[0]) {
        let d = s.drop_first();
        let a0 = lemma_trim_start_full(d);
        assert(d.skip(a0) =~= s.skip(a0 + 1));
        assert forall|j: int| 0 <= j < a0 + 1 implies is_ws(#[trigger] s[j]) by {
            if j > 0 {
                assert(d[j - 1] == s[j]);
            }
        }
        a0 + 1
    } else {
        assert(s.skip(0) =~= s);
        0
    }
}

/// Trailing white space does not change how a value is read.
proof fn lemma_trim_after_trim_end(v: Seq<char>)
    ensures
        trim(trim_end(v)) == trim(v),
{
    let b = lemma_trim_end_full(v);
    let t = v.take(b);
    let a = lemma_trim_start_full(t);
    assert forall|j: int| 0 <= j < a implies is_ws(#[trigger] v[j]) by {
        assert(t[j] == v[j]);
    }
    if a < b {
        assert(t[a] == v[a]);
        lemma_trim_start_skip(v, a);
        let u = v.skip(a);
        assert forall|j: int| b - a <= j < u.len() implies is_ws(#[trigger] u[j]) by {
            assert(u[j] == v[j + a]);
        }
        assert(u[b - a - 1] == v[b - 1]);
        lemma_trim_end_take(u, b - a);
        let w = t.skip(a);
        assert(w[w.len() - 1] == v[b - 1]);
        lemma_trim_end_take(w, w.len() as int);
        assert(w.take(w.len() as int) =~= w);
        assert(u.take(b - a) =~= w);
    } else {
        assert forall|j: int| 0 <= j < v.len() implies is_ws(#[trigger] v[j]) by {
            if j < b {
                assert(t[j] == v[j]);
            }
        }
        lemma_trim_start_skip(v, v.len() as int);
        assert(v.skip(v.len() as int) =~= Seq::<char>::empty());
        assert(t.skip(a) =~= Seq::<char>::empty());
    }
}

/// White space at the end goes, a part ending in a non-space stays.
proof fn lemma_trim_end_concat(a: Seq<char>, b: Seq<char>)
    requires
        a.len() > 0,
        !is_ws(a.last()),
    ensures
        trim_end(a + b) == a + trim_end(b),
    decreases b.len(),
{
    if b.len() == 0 {
        assert(a + b =~= a);
        assert(trim_end(a) == a);
        assert(a + trim_end(b) =~= a);
    } else {
        assert((a + b).last() == b.last());
        if is_ws(b.last()) {
            assert((a + b).drop_last() =~= a + b.drop_last());
            lemma_trim_end_concat(a, b.drop_last());
        }
    }
}

proof fn lemma_strip_lead_shape(s: Seq<char>, c: char) -> (a: int)
    ensures
        0 <= a <= s.len(),
        strip_lead(s, c) == s.skip(a),
    decreases s.len(),
{
    if s.len() > 0 && s[0] == c {
        let a0 = lemma_strip_lead_shape(s.drop_first(), c);
        assert(s.drop_first().skip(a0) =~= s.skip(a0 + 1));
        a0 + 1
    } else {
        assert(s.skip(0) =~= s);
        0
    }
}

proof fn lemma_strip_trail_shape(s: Seq<char>, c: char) -> (b: int)
    ensures
        0 <= b <= s.len(),
        strip_trail(s, c) == s.take(b),
    decreases s.len(),
{
    if s.len() > 0 && s.last() == c {
        let b0 = lemma_strip_trail_shape(s.drop_last(), c);
        assert(s.drop_last().take(b0) =~= s.take(b0));
        b0
    } else {
        assert(s.take(s.len() as int) =~= s);
        s.len() as int
    }
}

proof fn lemma_trim_matches_shorter(s: Seq<char>, c: char)
    ensures
        trim_matches(s, c).len() <= s.len(),
        trim_matches(s, c).len() == s.len() ==> trim_matches(s, c) == s,
{
    let a = lemma_strip_lead_shape(s, c);
    let t = s.skip(a);
    let b = lemma_strip_trail_shape(t, c);
    if t.take(b).len() == s.len() {
        assert(a == 0);
        assert(t =~= s);
        assert(t.take(b) =~= s);
    }
}

/// A value that survives unquoting has no white space at either end.
proof fn lemma_round_trip_value_ends(v: Seq<char>)
    requires
        parse_value(v) == v,
    ensures
        trim(v) == v,
        v.len() > 0 ==> !is_ws(v[0]) && !is_ws(v.last()),
{
    let a = lemma_trim_start_shape(v);
    let ts = v.skip(a);
    let b = lemma_trim_end_shape(ts);
    let t = ts.take(b);
    assert(trim(v) == t);
    let u = trim_matches(t, '"');
    lemma_trim_matches_shorter(t, '"');
    lemma_trim_matches_shorter(u, '\'');
    assert(t.len() == v.len());
    assert(a == 0);
    assert(ts =~= v);
    assert(t =~= v);
    if v.len() > 0 {
        assert(b == v.len());
    }
}

// ------------------------------------------------------------------ one assignment line

proof fn lemma_key_no_special(k: Seq<char>)
    requires
        valid_key(k),
    ensures
        !k.contains('\n'),
        !k.contains('='),
        !is_ws(k[0]),
        !is_ws(k.last()),
        k[0] != '#',
        trim(k) == k,
{
    assert(is_key_char(k[0]));
    assert(is_key_char(k[k.len() - 1]));
    lemma_trim_id(k);
    if k.contains('\n') {
        let i = choose|i: int| 0 <= i < k.len() && k[i] == '\n';
        assert(is_key_char(k[i]));
    }
    if k.contains('=') {
        let i = choose|i: int| 0 <= i < k.len() && k[i] == '=';
        assert(is_key_char(k[i]));
    }
}

proof fn lemma_assignment_line(k: Seq<char>, v: Seq<char>, format: Format)
    requires
        valid_key(k),
        round_trip_value(v),
    ensures
        !format_line_spec(k, v, format).contains('\n'),
        format_line_spec(k, v, format).len() > 0,
        format_line_spec(k, v, format).last() != '\r',
        trim(format_line_spec(k, v, format)) == format_line_spec(k, v, format),
        format_line_spec(k, v, format)[0] != '#',
        parse_line_spec(format_line_spec(k, v, format), format) == Some((k, v)),
        !is_marker(format_line_spec(k, v, format)),
{
    reveal_strlit("export ");
    reveal_strlit("# >>> VietIME managed start >>>");
    reveal_strlit("# <<< VietIME managed end <<<");
    lemma_key_no_special(k);
    lemma_round_trip_value_ends(v);
    let kv = k + seq!['='] + v;
    let l = format_line_spec(k, v, format);
    // the body after any `export ` prefix is `k=v`
    assert(line_body(l, format) == Some(kv)) by {
        if format == Format::PosixShellExport {
            assert(l =~= "export "@ + kv);
            assert(l.take(7) =~= "export "@);
            assert(l.skip(7) =~= kv);
        } else {
            assert(l =~= kv);
        }
    }
    // `=` first occurs right after the key
    assert forall|j: int| 0 <= j < k.len() implies kv[j] != '=' by {
        assert(kv[j] == k[j]);
        assert(k.contains(k[j]));
    }
    lemma_find_char(kv, '=', k.len() as int);
    assert(kv.take(k.len() as int) =~= k);
    assert(kv.skip(k.len() + 1int) =~= v);
    assert(split_once(kv, '=') == Some((k, v)));
    // no line break, no trailing `\r`, no surrounding white space
    assert(!l.contains('\n')) by {
        if l.contains('\n') {
            let i = choose|i: int| 0 <= i < l.len() && l[i] == '\n';
            if format == Format::PosixShellExport {
                if i < 7 {
                    assert(l[i] == "export "@[i]);
                } else if i < 7 + k.len() {
                    assert(l[i] == k[i - 7]);
                    assert(k.contains(k[i - 7]));
                } else if i > 7 + k.len() {
                    assert(l[i] == v[i - 8 - k.len()]);
                    assert(v.contains(v[i - 8 - k.len()]));
                }
            } else {
                if i < k.len() {
                    assert(l[i] == k[i]);
                    assert(k.contains(k[i]));
                } else if i > k.len() {
                    assert(l[i] == v[i - 1 - k.len()]);
                    assert(v.contains(v[i - 1 - k.len()]));
                }
            }
        }
    }
    if v.len() > 0 {
        assert(l.last() == v.last());
    } else {
        assert(l.last() == '=');
    }
    if format == Format::PosixShellExport {
        assert(l[0] == 'e');
    } else {
        assert(l[0] == k[0]);
    }
    lemma_trim_id(l);
    assert(l[0] != MARKER_START@[0]);
    assert(l[0] != MARKER_END@[0]);
}

/// A value that can be written on one line: no line break in it, and no
/// carriage return at its end (which `str::lines` would drop).
pub open spec fn one_line_value(v: Seq<char>) -> bool {
    !v.contains('\n') && (v.len() == 0 || v.last() != '\r')
}

/// A written assignment line of any one-line value reads back as the key
/// and the value as the parser unquotes it.
proof fn lemma_written_line(k: Seq<char>, v: Seq<char>, format: Format)
    requires
        valid_key(k),
        one_line_value(v),
    ensures
        !format_line_spec(k, v, format).contains('\n'),
        format_line_spec(k, v, format).len() > 0,
        format_line_spec(k, v, format).last() != '\r',
        trim(format_line_spec(k, v, format)).len() > 0,
        trim(format_line_spec(k, v, format))[0] != '#',
        parse_line_spec(trim(format_line_spec(k, v, format)), format) == Some((k, parse_value(v))),
        !is_marker(format_line_spec(k, v, format)),
{
    reveal_strlit("export ");
    reveal_strlit("# >>> VietIME managed start >>>");
    reveal_strlit("# <<< VietIME managed end <<<");
    lemma_key_no_special(k);
    let l = format_line_spec(k, v, format);
    let pre: Seq<char> = if format == Format::PosixShellExport { "export "@ } else { seq![] };
    let head = pre + k + seq!['='];
    assert(l =~= head + v);
    // no line break, no trailing `\r`
    assert(!l.contains('\n')) by {
        if l.contains('\n') {
            let i = choose|i: int| 0 <= i < l.len() && l[i] == '\n';
            if i < pre.len() {
                assert(l[i] == pre[i]);
            } else if i < pre.len() + k.len() {
                assert(l[i] == k[i - pre.len()]);
                assert(k.contains(k[i - pre.len()]));
            } else if i > pre.len() + k.len() {
                assert(l[i] == v[i - head.len()]);
                assert(v.contains(v[i - head.len()]));
            }
        }
    }
    if v.len() > 0 {
        assert(l.last() == v.last());
    } else {
        assert(l.last() == '=');
    }
    // the line starts with a non-space, so only its end is trimmed
    let c0 = l[0];
    if format == Format::PosixShellExport {
        assert(c0 == 'e');
    } else {
        assert(c0 == k[0]);
    }
    lemma_trim_start_skip(l, 0);
    assert(l.skip(0) =~= l);
    assert(head.last() == '=');
    lemma_trim_end_concat(head, v);
    let tv = trim_end(v);
    let t = trim(l);
    assert(t == head + tv);
    assert(t[0] == c0);
    assert(t[0] != MARKER_START@[0]);
    assert(t[0] != MARKER_END@[0]);
    let kv = k + seq!['='] + tv;
    assert(line_body(t, format) == Some(kv)) by {
        if format == Format::PosixShellExport {
            assert(t =~= "export "@ + kv);
            assert(t.take(7) =~= "export "@);
            assert(t.skip(7) =~= kv);
        } else {
            assert(t =~= kv);
        }
    }
    assert forall|j: int| 0 <= j < k.len() implies kv[j] != '=' by {
        assert(kv[j] == k[j]);
        assert(k.contains(k[j]));
    }
    lemma_find_char(kv, '=', k.len() as int);
    assert(kv.take(k.len() as int) =~= k);
    assert(kv.skip(k.len() + 1int) =~= tv);
    assert(split_once(kv, '=') == Some((k, tv)));
    lemma_trim_after_trim_end(v);
    assert(parse_value(tv) == parse_value(v));
}

// ------------------------------------------------------------------ block text

pub open spec fn good_entries(e: Seq<(Seq<char>, Seq<char>)>) -> bool {
    forall|i: int| 0 <= i < e.len() ==> valid_key(#[trigger] e[i].0) && round_trip_value(e[i].1)
}

/// Assignments that can be written one per line: valid keys, one-line
/// values.
pub open spec fn written_entries(e: Seq<(Seq<char>, Seq<char>)>) -> bool {
    forall|i: int| 0 <= i < e.len() ==> valid_key(#[trigger] e[i].0) && one_line_value(e[i].1)
}

/// The assignments as the parser reads them back: values unquoted.
pub open spec fn unquoted(e: Seq<(Seq<char>, Seq<char>)>) -> Seq<(Seq<char>, Seq<char>)> {
    Seq::new(e.len(), |i: int| (e[i].0, parse_value(e[i].1)))
}

proof fn lemma_written_entries_prefix(e: Seq<(Seq<char>, Seq<char>)>, n: int)
    requires
        written_entries(e),
        0 <= n <= e.len(),
    ensures
        written_entries(e.take(n)),
{
    assert forall|i: int| 0 <= i < e.take(n).len() implies valid_key(#[trigger] e.take(n)[i].0)
        && one_line_value(e.take(n)[i].1) by {
        assert(e.take(n)[i] == e[i]);
        assert(valid_key(e[i].0));
    }
}

/// Round-tripping assignments can be written and read back unchanged.
proof fn lemma_good_written(e: Seq<(Seq<char>, Seq<char>)>)
    requires
        good_entries(e),
    ensures
        written_entries(e),
        unquoted(e) == e,
{
    assert forall|i: int| 0 <= i < e.len() implies valid_key(#[trigger] e[i].0) && one_line_value(e[i].1) by {
        assert(valid_key(e[i].0));
        lemma_round_trip_value_ends(e[i].1);
        if e[i].1.len() > 0 {
            assert(!is_ws(e[i].1.last()));
        }
    }
    assert(unquoted(e) =~= e);
}

pub open spec fn entry_lines(e: Seq<(Seq<char>, Seq<char>)>, format: Format) -> Seq<Seq<char>> {
    Seq::new(e.len(), |i: int| format_line_spec(e[i].0, e[i].1, format))
}

proof fn lemma_entries_lines(e: Seq<(Seq<char>, Seq<char>)>, format: Format)
    requires
        written_entries(e),
    ensures
        lines(entries_text(e, format)) == entry_lines(e, format),
        entries_text(e, format).len() == 0 || entries_text(e, format).last() == '\n',
    decreases e.len(),
{
    if e.len() == 0 {
        assert(lines(entries_text(e, format)) =~= Seq::<Seq<char>>::empty());
        assert(entry_lines(e, format) =~= Seq::<Seq<char>>::empty());
    } else {
        let d = e.drop_last();
        lemma_written_entries_prefix(e, e.len() - 1);
        assert(e.take(e.len() - 1) =~= d);
        lemma_entries_lines(d, format);
        let l = format_line_spec(e.last().0, e.last().1, format);
        assert(valid_key(e[e.len() - 1].0));
        lemma_written_line(e.last().0, e.last().1, format);
        lemma_line_nl(l);
        assert(entries_text(e, format) =~= entries_text(d, format) + (l + seq!['\n']));
        lemma_lines_append(entries_text(d, format), l + seq!['\n']);
        assert(entry_lines(e, format) =~= entry_lines(d, format) + seq![l]);
    }
}

proof fn lemma_block_lines(e: Seq<(Seq<char>, Seq<char>)>, format: Format)
    requires
        written_entries(e),
    ensures
        lines(block_text(e, format)) == seq![MARKER_START@, MANAGED_HINT@] + entry_lines(e, format)
            + seq![MARKER_END@],
{
    reveal_strlit("# >>> VietIME managed start >>>");
    reveal_strlit("# <<< VietIME managed end <<<");
    reveal_strlit(
        "# This block is managed by `vietime install`. Do not edit by hand — run `vietime rollback` or re-run install to change it.",
    );
    let ms = MARKER_START@ + seq!['\n'];
    let hn = MANAGED_HINT@ + seq!['\n'];
    let et = entries_text(e, format);
    let me = MARKER_END@ + seq!['\n'];
    assert(block_text(e, format) =~= ms + (hn + (et + me)));
    lemma_line_nl(MARKER_START@);
    lemma_line_nl(MANAGED_HINT@);
    lemma_line_nl(MARKER_END@);
    lemma_entries_lines(e, format);
    lemma_lines_append(et, me);
    lemma_lines_append(hn, et + me);
    lemma_lines_append(ms, hn + (et + me));
    assert(lines(block_text(e, format)) =~= seq![MARKER_START@, MANAGED_HINT@] + entry_lines(
        e,
        format,
    ) + seq![MARKER_END@]);
}

// ------------------------------------------------------------------ scan

pub open spec fn scan_from(acc: Result<ScanParts, EnvFileErrorView>, ys: Seq<Seq<char>>) -> Result<
    ScanParts,
    EnvFileErrorView,
>
    decreases ys.len(),
{
    if ys.len() == 0 {
        acc
    } else {
        scan_step(scan_from(acc, ys.drop_last()), ys.last())
    }
}

proof fn lemma_scan_is_from(ls: Seq<Seq<char>>)
    ensures
        scan(ls) == scan_from(
            Ok::<ScanParts, EnvFileErrorView>((ParseState::Prefix, seq![], seq![], seq![], false)),
            ls,
        ),
    decreases ls.len(),
{
    if ls.len() > 0 {
        lemma_scan_is_from(ls.drop_last());
    }
}

proof fn lemma_scan_from_concat(
    acc: Result<ScanParts, EnvFileErrorView>,
    xs: Seq<Seq<char>>,
    ys: Seq<Seq<char>>,
)
    ensures
        scan_from(acc, xs + ys) == scan_from(scan_from(acc, xs), ys),
    decreases ys.len(),
{
    if ys.len() == 0 {
        assert(xs + ys =~= xs);
    } else {
        assert((xs + ys).drop_last() =~= xs + ys.drop_last());
        lemma_scan_from_concat(acc, xs, ys.drop_last());
    }
}

/// Lines that are not markers go to the current part.
proof fn lemma_scan_plain(st: ParseState, p: ScanParts, ys: Seq<Seq<char>>)
    requires
        p.0 == st,
        forall|i: int| 0 <= i < ys.len() ==> !is_marker(#[trigger] ys[i]),
    ensures
        scan_from(Ok::<ScanParts, EnvFileErrorView>(p), ys) == Ok::<ScanParts, EnvFileErrorView>(
            (
                st,
                if st == ParseState::Prefix {
                    p.1 + ys
                } else {
                    p.1
                },
                if st == ParseState::InBlock {
                    p.2 + ys
                } else {
                    p.2
                },
                if st == ParseState::Suffix {
                    p.3 + ys
                } else {
                    p.3
                },
                p.4,
            ),
        ),
    decreases ys.len(),
{
    if ys.len() == 0 {
        assert(p.1 + ys =~= p.1);
        assert(p.2 + ys =~= p.2);
        assert(p.3 + ys =~= p.3);
    } else {
        let d = ys.drop_last();
        assert(forall|i: int| 0 <= i < d.len() ==> d[i] == ys[i]);
        lemma_scan_plain(st, p, d);
        assert(!is_marker(ys[ys.len() - 1]));
        assert(p.1 + d.push(ys.last()) =~= p.1 + ys);
        assert(p.2 + d.push(ys.last()) =~= p.2 + ys);
        assert(p.3 + d.push(ys.last()) =~= p.3 + ys);
        assert((p.1 + d).push(ys.last()) =~= p.1 + ys);
        assert((p.2 + d).push(ys.last()) =~= p.2 + ys);
        assert((p.3 + d).push(ys.last()) =~= p.3 + ys);
    }
}

proof fn lemma_marker_free_lines(s: Seq<char>)
    requires
        marker_free(s),
    ensures
        forall|i: int| 0 <= i < lines(s).len() ==> !is_marker(#[trigger] lines(s)[i]),
{
}

// ------------------------------------------------------------------ block pairs

proof fn lemma_block_pairs_entries(e: Seq<(Seq<char>, Seq<char>)>, format: Format, n: int)
    requires
        written_entries(e),
        0 <= n <= e.len(),
    ensures
        block_pairs((seq![MANAGED_HINT@] + entry_lines(e, format)).take(n + 1), format) == Ok::<
            Seq<(Seq<char>, Seq<char>)>,
            EnvFileErrorView,
        >(unquoted(e).take(n)),
    decreases n,
{
    reveal_strlit(
        "# This block is managed by `vietime install`. Do not edit by hand — run `vietime rollback` or re-run install to change it.",
    );
    let ls = seq![MANAGED_HINT@] + entry_lines(e, format);
    if n == 0 {
        let one = ls.take(1);
        assert(one =~= seq![MANAGED_HINT@]);
        assert(one.drop_last() =~= Seq::<Seq<char>>::empty());
        assert(block_pairs(one.drop_last(), format) == Ok::<
            Seq<(Seq<char>, Seq<char>)>,
            EnvFileErrorView,
        >(seq![]));
        lemma_trim_id(MANAGED_HINT@);
        assert(trim(one.last())[0] == '#');
        assert(block_pairs(one, format) == block_step(
            block_pairs(one.drop_last(), format),
            0,
            one.last(),
            format,
        ));
        assert(unquoted(e).take(0) =~= Seq::<(Seq<char>, Seq<char>)>::empty());
    } else {
        lemma_block_pairs_entries(e, format, n - 1);
        let cur = ls.take(n + 1);
        assert(cur.drop_last() =~= ls.take(n));
        let l = format_line_spec(e[n - 1].0, e[n - 1].1, format);
        assert(cur.last() == l);
        assert(valid_key(e[n - 1].0));
        lemma_written_line(e[n - 1].0, e[n - 1].1, format);
        assert(block_pairs(cur, format) == block_step(
            block_pairs(cur.drop_last(), format),
            n,
            cur.last(),
            format,
        ));
        let u = unquoted(e);
        assert(u[n - 1] == (e[n - 1].0, parse_value(e[n - 1].1)));
        assert(u.take(n - 1).push(u[n - 1]) =~= u.take(n));
    }
}

// ------------------------------------------------------------------ the law

/// The text after the managed block in a rendered document: the suffix
/// with one final newline, or nothing where the suffix is only newlines.
pub open spec fn rendered_tail(suffix: Seq<char>) -> Seq<char> {
    let q = if suffix.len() == 0 { suffix } else { ensure_nl(suffix) };
    if all_nl(q) {
        Seq::<char>::empty()
    } else {
        collapse_nl(q)
    }
}

/// A document whose assignments can be written one per line and whose
/// text around the block has no marker line.
pub open spec fn written_doc(d: EnvFileDocView) -> bool {
    &&& sorted(d.entries)
    &&& written_entries(d.entries)
    &&& marker_free(ensure_nl(d.prefix))
    &&& marker_free(ensure_nl(d.suffix))
}

/// How a rendered document reads back, part by part: the assignments
/// come back unquoted.
#[verifier::rlimit(50)]
proof fn lemma_render_parse_parts(dv: EnvFileDocView)
    requires
        written_doc(dv),
    ensures
        (dv.had_block || dv.entries.len() > 0) ==> {
            &&& render_spec(dv) == ensure_nl(dv.prefix) + block_text(dv.entries, dv.format) + rendered_tail(dv.suffix)
            &&& spec_parse(render_spec(dv), dv.format) == Ok::<(Seq<char>, Seq<char>, Seq<(Seq<char>, Seq<char>)>, bool), EnvFileErrorView>(
                (join_nl(lines(ensure_nl(dv.prefix))), join_nl(lines(rendered_tail(dv.suffix))), unquoted(dv.entries), true),
            )
        },
        !(dv.had_block || dv.entries.len() > 0) ==> spec_parse(render_spec(dv), dv.format) == Ok::<(Seq<char>, Seq<char>, Seq<(Seq<char>, Seq<char>)>, bool), EnvFileErrorView>(
            (join_nl(lines(render_spec(dv))), Seq::<char>::empty(), unquoted(dv.entries), false),
        ),
        (dv.had_block || dv.entries.len() > 0) ==> {
            &&& lines(render_spec(dv)) == lines(ensure_nl(dv.prefix)) + seq![MARKER_START@, MANAGED_HINT@]
                + entry_lines(dv.entries, dv.format) + seq![MARKER_END@] + lines(rendered_tail(dv.suffix))
            &&& marker_free(rendered_tail(dv.suffix))
        },
        !(dv.had_block || dv.entries.len() > 0) ==> marker_free(render_spec(dv)),
{
    reveal_strlit("# >>> VietIME managed start >>>");
    reveal_strlit("# <<< VietIME managed end <<<");
    reveal_strlit(
        "# This block is managed by `vietime install`. Do not edit by hand — run `vietime rollback` or re-run install to change it.",
    );
    let v = dv;
    let f = v.format;
    let e = v.entries;
    let head = ensure_nl(v.prefix);
    let init: ScanParts = (ParseState::Prefix, seq![], seq![], seq![], false);
    lemma_marker_free_lines(head);
    let out = render_spec(v);
    if v.had_block || e.len() > 0 {
        let b = block_text(e, f);
        let p = head + b;
        lemma_block_lines(e, f);
        assert(p.last() == '\n');
        assert(p[p.len() - 2] == '>' || p[p.len() - 2] == '<') by {
            assert(p[p.len() - 2] == b[b.len() - 2]);
            assert(b[b.len() - 2] == MARKER_END@.last());
        }
        // the text after the block
        let q = if v.suffix.len() == 0 {
            v.suffix
        } else {
            ensure_nl(v.suffix)
        };
        assert(ensure_nl(p + v.suffix) =~= p + q);
        lemma_collapse_after(p, q);
        let r = if all_nl(q) {
            Seq::<char>::empty()
        } else {
            collapse_nl(q)
        };
        assert(out =~= p + r);
        // r has no marker lines
        assert(marker_free(r)) by {
            if all_nl(q) {
                assert(lines(r) =~= Seq::<Seq<char>>::empty());
            } else {
                assert(v.suffix.len() > 0);
                lemma_collapse_marker_free(q);
            }
        }
        lemma_marker_free_lines(r);
        lemma_lines_append(head, b + r);
        lemma_lines_append(b, r);
        assert(head + (b + r) =~= out);
        let el = entry_lines(e, f);
        let lh = lines(head);
        let lr = lines(r);
        let mid = seq![MANAGED_HINT@] + el;
        assert(lines(out) =~= lh + (seq![MARKER_START@] + mid + seq![MARKER_END@]) + lr);
        assert(lines(out) =~= lh + seq![MARKER_START@, MANAGED_HINT@] + el + seq![MARKER_END@] + lr);
        assert(r == rendered_tail(v.suffix));
        // scan: prefix lines, opening marker, block lines, closing marker, suffix lines
        lemma_scan_is_from(lines(out));
        let s0 = Ok::<ScanParts, EnvFileErrorView>(init);
        lemma_scan_plain(ParseState::Prefix, init, lh);
        assert(Seq::<Seq<char>>::empty() + lh =~= lh);
        let p1: ScanParts = (ParseState::Prefix, lh, seq![], seq![], false);
        assert(scan_from(s0, lh) == Ok::<ScanParts, EnvFileErrorView>(p1));
        lemma_trim_id(MARKER_START@);
        lemma_trim_id(MARKER_END@);
        lemma_trim_id(MANAGED_HINT@);
        let p2: ScanParts = (ParseState::InBlock, lh, seq![], seq![], true);
        assert(scan_from(Ok::<ScanParts, EnvFileErrorView>(p1), seq![MARKER_START@]) == Ok::<
            ScanParts,
            EnvFileErrorView,
        >(p2)) by {
            assert(seq![MARKER_START@].drop_last() =~= Seq::<Seq<char>>::empty());
            assert(scan_from(Ok::<ScanParts, EnvFileErrorView>(p1), seq![]) == Ok::<
                ScanParts,
                EnvFileErrorView,
            >(p1));
        }
        assert forall|i: int| 0 <= i < mid.len() implies !is_marker(#[trigger] mid[i]) by {
            if i == 0 {
                assert(mid[0] == MANAGED_HINT@);
                assert(MANAGED_HINT@.len() != MARKER_START@.len());
                assert(MANAGED_HINT@.len() != MARKER_END@.len());
            } else {
                assert(mid[i] == el[i - 1]);
                assert(valid_key(e[i - 1].0));
                lemma_written_line(e[i - 1].0, e[i - 1].1, f);
            }
        }
        lemma_scan_plain(ParseState::InBlock, p2, mid);
        assert(Seq::<Seq<char>>::empty() + mid =~= mid);
        let p3: ScanParts = (ParseState::InBlock, lh, mid, seq![], true);
        let p4: ScanParts = (ParseState::Suffix, lh, mid, seq![], true);
        assert(scan_from(Ok::<ScanParts, EnvFileErrorView>(p3), seq![MARKER_END@]) == Ok::<
            ScanParts,
            EnvFileErrorView,
        >(p4)) by {
            assert(seq![MARKER_END@].drop_last() =~= Seq::<Seq<char>>::empty());
            assert(scan_from(Ok::<ScanParts, EnvFileErrorView>(p3), seq![]) == Ok::<
                ScanParts,
                EnvFileErrorView,
            >(p3));
            assert(MARKER_END@ != MARKER_START@) by {
                assert(MARKER_END@[2] != MARKER_START@[2]);
            }
        }
        lemma_scan_plain(ParseState::Suffix, p4, lr);
        assert(Seq::<Seq<char>>::empty() + lr =~= lr);
        let ls = lines(out);
        assert(ls =~= lh + seq![MARKER_START@] + mid + seq![MARKER_END@] + lr);
        lemma_scan_from_concat(s0, lh + seq![MARKER_START@] + mid + seq![MARKER_END@], lr);
        lemma_scan_from_concat(s0, lh + seq![MARKER_START@] + mid, seq![MARKER_END@]);
        lemma_scan_from_concat(s0, lh + seq![MARKER_START@], mid);
        lemma_scan_from_concat(s0, lh, seq![MARKER_START@]);
        assert(scan(ls) == Ok::<ScanParts, EnvFileErrorView>(
            (ParseState::Suffix, lh, mid, lr, true),
        ));
        // block: the notice is skipped, every assignment is read back
        lemma_block_pairs_entries(e, f, e.len() as int);
        assert(mid.take(e.len() + 1int) =~= mid);
        assert(unquoted(e).take(e.len() as int) =~= unquoted(e));
    } else {
        let out0 = ensure_nl(head + v.suffix);
        assert(marker_free(out0)) by {
            if v.suffix.len() == 0 {
                assert(head + v.suffix =~= head);
            } else {
                assert(out0 =~= head + ensure_nl(v.suffix));
                lemma_lines_append(head, ensure_nl(v.suffix));
                lemma_marker_free_lines(ensure_nl(v.suffix));
                assert forall|i: int| 0 <= i < lines(out0).len() implies !is_marker(
                    #[trigger] lines(out0)[i],
                ) by {
                    if i >= lines(head).len() {
                        assert(lines(out0)[i] == lines(ensure_nl(v.suffix))[i - lines(head).len()]);
                    }
                }
            }
        }
        lemma_collapse_marker_free(out0);
        lemma_marker_free_lines(out);
        lemma_scan_is_from(lines(out));
        lemma_scan_plain(ParseState::Prefix, init, lines(out));
        assert(e =~= Seq::<(Seq<char>, Seq<char>)>::empty());
        assert(unquoted(e) =~= Seq::<(Seq<char>, Seq<char>)>::empty());
    }
}


/// The lines of a rendered document: the lines above the block; then,
/// where the document has a block or any assignment, the opening marker,
/// the notice, one `k=v` line (`export k=v` in shell format) per
/// assignment in ascending key order, and the closing marker; then the
/// lines below. No line above or below the block is a marker, so each
/// marker occurs exactly once where there is a block and not at all
/// where there is none. The text ends in exactly one newline. This holds
/// for any values that fit on one line, quoted or not, where no line
/// around the block is a marker (as after `parse`, `set` and `unset`).
pub proof fn law_render_lines(d: EnvFileDoc)
    requires
        d.wf(),
        written_entries(d@.entries),
        marker_free(ensure_nl(d@.prefix)),
        marker_free(ensure_nl(d@.suffix)),
    ensures
        render_spec(d@).len() > 0,
        render_spec(d@).last() == '\n',
        !(render_spec(d@).len() >= 2 && render_spec(d@)[render_spec(d@).len() - 2] == '\n'),
        sorted(d@.entries),
        (d@.had_block || d@.entries.len() > 0) ==> {
            &&& lines(render_spec(d@)) == lines(ensure_nl(d@.prefix)) + seq![MARKER_START@, MANAGED_HINT@]
                + entry_lines(d@.entries, d@.format) + seq![MARKER_END@] + lines(rendered_tail(d@.suffix))
            &&& marker_free(ensure_nl(d@.prefix))
            &&& marker_free(rendered_tail(d@.suffix))
        },
        !(d@.had_block || d@.entries.len() > 0) ==> marker_free(render_spec(d@)),
{
    d.lemma_wf();
    lemma_render_parse_parts(d@);
    lemma_render_shape(d@);
    lemma_collapse_shape(render_spec(d@));
}

/// Writing a document and reading the text back gives the same
/// assignments, in the same order, and a block exactly when the document
/// had one or had any assignment.
pub proof fn law_render_then_parse(d: EnvFileDoc)
    requires
        d.wf(),
        round_trip_doc(d@),
    ensures
        spec_parse(render_spec(d@), d@.format) is Ok,
        spec_parse(render_spec(d@), d@.format)->Ok_0.2 == d@.entries,
        spec_parse(render_spec(d@), d@.format)->Ok_0.3 == (d@.had_block || d@.entries.len() > 0),
{
    lemma_good_written(d@.entries);
    lemma_render_parse_parts(d@);
}


// ------------------------------------------------------------------ stability

proof fn lemma_join_nl_concat(a: Seq<Seq<char>>, b: Seq<Seq<char>>)
    ensures
        join_nl(a + b) == join_nl(a) + join_nl(b),
    decreases b.len(),
{
    if b.len() == 0 {
        assert(a + b =~= a);
        assert(join_nl(a) + join_nl(b) =~= join_nl(a));
    } else {
        assert((a + b).drop_last() =~= a + b.drop_last());
        lemma_join_nl_concat(a, b.drop_last());
        assert(join_nl(a + b) =~= join_nl(a) + join_nl(b));
    }
}

/// No carriage return stands right before a line break.
pub open spec fn crlf_free(s: Seq<char>) -> bool {
    forall|i: int| 0 <= i < s.len() - 1 ==> !(#[trigger] s[i] == '\r' && s[i + 1] == '\n')
}

proof fn lemma_crlf_free_part(s: Seq<char>, a: int, b: int)
    requires
        crlf_free(s),
        0 <= a <= b <= s.len(),
    ensures
        crlf_free(s.subrange(a, b)),
{
    let t = s.subrange(a, b);
    assert forall|i: int| 0 <= i < t.len() - 1 implies !(#[trigger] t[i] == '\r' && t[i + 1] == '\n') by {
        assert(t[i] == s[a + i]);
        assert(t[i + 1] == s[a + i + 1]);
    }
}

proof fn lemma_join_lines_acc(x: Seq<char>, cur: Seq<char>)
    requires
        crlf_free(cur + x),
        !cur.contains('\n'),
        x.len() == 0 ==> cur.len() == 0,
        x.len() > 0 ==> x.last() == '\n',
    ensures
        join_nl(lines_acc(x, cur)) == cur + x,
    decreases x.len(),
{
    if x.len() == 0 {
        assert(cur + x =~= Seq::<char>::empty());
    } else {
        let rest = x.drop_first();
        let cx = cur + x;
        if rest.len() > 0 {
            assert(rest.last() == x.last());
        }
        if x[0] == '\n' {
            assert(strip_cr(cur) == cur) by {
                if cur.len() > 0 {
                    assert(cx[cur.len() - 1] == cur.last());
                    assert(cx[cur.len() as int] == '\n');
                }
            }
            assert(rest =~= cx.subrange(cur.len() + 1int, cx.len() as int));
            lemma_crlf_free_part(cx, cur.len() + 1int, cx.len() as int);
            assert(Seq::<char>::empty() + rest =~= rest);
            lemma_join_lines_acc(rest, seq![]);
            lemma_join_nl_concat(seq![cur], lines_acc(rest, seq![]));
            assert(seq![cur].drop_last() =~= Seq::<Seq<char>>::empty());
            assert(join_nl(Seq::<Seq<char>>::empty()) =~= Seq::<char>::empty());
            assert(join_nl(seq![cur]) == join_nl(seq![cur].drop_last()) + cur + seq!['\n']);
            assert(join_nl(seq![cur]) =~= cur + seq!['\n']);
            assert(cur + seq!['\n'] + rest =~= cur + x);
        } else {
            let c2 = cur.push(x[0]);
            assert(!c2.contains('\n')) by {
                if c2.contains('\n') {
                    let i = choose|i: int| 0 <= i < c2.len() && c2[i] == '\n';
                    if i < cur.len() {
                        assert(cur[i] == c2[i]);
                    }
                }
            }
            assert(rest.len() > 0);
            assert(c2 + rest =~= cur + x);
            lemma_join_lines_acc(rest, c2);
        }
    }
}

/// Text that is empty or ends in `\n`, with no carriage return right
/// before a line break, reads back as itself, line by line.
proof fn lemma_join_lines(x: Seq<char>)
    requires
        crlf_free(x),
        x.len() == 0 || x.last() == '\n',
    ensures
        join_nl(lines(x)) == x,
{
    assert(Seq::<char>::empty() + x =~= x);
    lemma_join_lines_acc(x, seq![]);
}

proof fn lemma_collapse_shape(s: Seq<char>)
    ensures
        collapse_nl(s).len() <= s.len(),
        forall|i: int| 0 <= i < collapse_nl(s).len() ==> collapse_nl(s)[i] == s[i],
        !(collapse_nl(s).len() >= 2 && collapse_nl(s).last() == '\n' && collapse_nl(s)[collapse_nl(s).len() - 2] == '\n'),
        s.len() > 0 && s.last() == '\n' ==> collapse_nl(s).len() > 0 && collapse_nl(s).last() == '\n',
    decreases s.len(),
{
    if s.len() >= 2 && s.last() == '\n' && s[s.len() - 2] == '\n' {
        let d = s.drop_last();
        lemma_collapse_shape(d);
        assert forall|i: int| 0 <= i < collapse_nl(s).len() implies collapse_nl(s)[i] == s[i] by {
            assert(collapse_nl(s) == collapse_nl(d));
            assert(d[i] == s[i]);
        }
    }
}

proof fn lemma_collapse_idempotent(s: Seq<char>)
    ensures
        collapse_nl(collapse_nl(s)) == collapse_nl(s),
{
    lemma_collapse_shape(s);
}

/// A rendered document always ends in one newline, and keeps no `\r` its
/// parts did not have.
proof fn lemma_render_shape(v: EnvFileDocView)
    ensures
        render_spec(v).len() > 0 && render_spec(v).last() == '\n',
        collapse_nl(render_spec(v)) == render_spec(v),
{
    let head = ensure_nl(v.prefix);
    let body = if v.had_block || v.entries.len() > 0 {
        head + block_text(v.entries, v.format)
    } else {
        head
    };
    let x = ensure_nl(body + v.suffix);
    lemma_collapse_shape(x);
    lemma_collapse_idempotent(x);
}

proof fn lemma_crlf_concat(a: Seq<char>, b: Seq<char>)
    requires
        crlf_free(a),
        crlf_free(b),
        a.len() == 0 || a.last() != '\r',
    ensures
        crlf_free(a + b),
{
    let c = a + b;
    assert forall|i: int| 0 <= i < c.len() - 1 implies !(#[trigger] c[i] == '\r' && c[i + 1] == '\n') by {
        if i < a.len() - 1 {
            assert(c[i] == a[i] && c[i + 1] == a[i + 1]);
        } else if i == a.len() - 1 {
            assert(c[i] == a.last());
        } else {
            assert(c[i] == b[i - a.len()] && c[i + 1] == b[i - a.len() + 1]);
        }
    }
}

/// Reading a rendered document back keeps the text around the block so
/// that, with the document's own assignments, it renders the same text.
proof fn lemma_written_stable(dv: EnvFileDocView)
    requires
        written_doc(dv),
        crlf_free(ensure_nl(dv.prefix)),
        crlf_free(ensure_nl(dv.suffix)),
    ensures
        spec_parse(render_spec(dv), dv.format) is Ok,
        ({
            let p = spec_parse(render_spec(dv), dv.format)->Ok_0;
            render_spec(EnvFileDocView { prefix: p.0, suffix: p.1, entries: dv.entries, had_block: p.3, format: dv.format })
                == render_spec(dv)
        }),
{
    lemma_render_parse_parts(dv);
    let v = dv;
    let out = render_spec(v);
    let head = ensure_nl(v.prefix);
    assert(head.len() > 0 && head.last() == '\n');
    lemma_render_shape(v);
    let p = spec_parse(out, v.format)->Ok_0;
    let w = EnvFileDocView { prefix: p.0, suffix: p.1, entries: v.entries, had_block: p.3, format: v.format };
    if v.had_block || v.entries.len() > 0 {
        lemma_join_lines(head);
        let tail = rendered_tail(v.suffix);
        let q = if v.suffix.len() == 0 { v.suffix } else { ensure_nl(v.suffix) };
        assert(crlf_free(q) && (q.len() == 0 || q.last() == '\n'));
        assert(crlf_free(tail) && (tail.len() == 0 || tail.last() == '\n')) by {
            if !all_nl(q) {
                lemma_collapse_shape(q);
                assert(q.len() > 0);
                assert(tail =~= q.subrange(0, tail.len() as int));
                lemma_crlf_free_part(q, 0, tail.len() as int);
            }
        }
        lemma_join_lines(tail);
        assert(w.prefix == head && w.suffix == tail && w.entries == v.entries && w.had_block);
        assert(ensure_nl(head) == head);
        assert(ensure_nl(head + block_text(v.entries, v.format) + tail) == out);
        assert(head + block_text(v.entries, v.format) + tail == out);
        assert(render_spec(w) =~= collapse_nl(ensure_nl(head + block_text(v.entries, v.format) + tail)));
    } else {
        let x = ensure_nl(head + v.suffix);
        assert(crlf_free(x)) by {
            if v.suffix.len() == 0 {
                assert(head + v.suffix =~= head);
            } else {
                assert(x =~= head + ensure_nl(v.suffix));
                lemma_crlf_concat(head, ensure_nl(v.suffix));
            }
        }
        lemma_collapse_shape(x);
        assert(out =~= x.subrange(0, out.len() as int));
        lemma_crlf_free_part(x, 0, out.len() as int);
        lemma_join_lines(out);
        assert(w.prefix == out && w.suffix == Seq::<char>::empty() && !w.had_block && w.entries.len() == 0);
        assert(ensure_nl(out) == out);
        assert(out + Seq::<char>::empty() =~= out);
        assert(render_spec(w) == collapse_nl(ensure_nl(ensure_nl(out) + Seq::<char>::empty())));
    }
}

/// A rendered document is stable: reading it back and rendering the
/// result writes the very same text, where no carriage return stands
/// right before a line break in the text around the block, each part
/// ended by a newline (`str::lines` drops such a `\r`).
pub proof fn law_render_is_stable(d: EnvFileDoc)
    requires
        d.wf(),
        round_trip_doc(d@),
        crlf_free(ensure_nl(d@.prefix)),
        crlf_free(ensure_nl(d@.suffix)),
    ensures
        spec_parse(render_spec(d@), d@.format) is Ok,
        ({
            let p = spec_parse(render_spec(d@), d@.format)->Ok_0;
            render_spec(EnvFileDocView { prefix: p.0, suffix: p.1, entries: p.2, had_block: p.3, format: d@.format })
                == render_spec(d@)
        }),
{
    lemma_good_written(d@.entries);
    lemma_written_stable(d@);
    lemma_render_parse_parts(d@);
}


/// Setting an assignment, writing the file, reading it back and setting
/// the same assignment again writes the very same text: a second install
/// of the same settings changes nothing. This holds for documents whose
/// text round-trips (valid keys, values that survive unquoting, no marker
/// around the block, no carriage return right before a line break there)
/// and any value that fits on one line, quoted or not.
pub proof fn law_set_is_idempotent(
    d0: EnvFileDoc,
    d1: EnvFileDoc,
    d2: EnvFileDoc,
    d3: EnvFileDoc,
    key: Seq<char>,
    value: Seq<char>,
)
    requires
        d0.wf(),
        round_trip_doc(d0@),
        crlf_free(ensure_nl(d0@.prefix)),
        crlf_free(ensure_nl(d0@.suffix)),
        valid_key(key),
        one_line_value(value),
        // d1: d0 after `set(key, value)`
        d1.wf(),
        d1.map() == d0.map().insert(key, value),
        d1@.had_block,
        d1@.prefix == d0@.prefix,
        d1@.suffix == d0@.suffix,
        d1@.format == d0@.format,
        // d2: what `parse` reads from d1's rendering
        spec_parse(render_spec(d1@), d1@.format) is Ok,
        d2.wf(),
        d2@.prefix == spec_parse(render_spec(d1@), d1@.format)->Ok_0.0,
        d2@.suffix == spec_parse(render_spec(d1@), d1@.format)->Ok_0.1,
        d2.map() == pairs_map(spec_parse(render_spec(d1@), d1@.format)->Ok_0.2),
        d2@.had_block == spec_parse(render_spec(d1@), d1@.format)->Ok_0.3,
        d2@.format == d1@.format,
        // d3: d2 after `set(key, value)`
        d3.wf(),
        d3.map() == d2.map().insert(key, value),
        d3@.had_block,
        d3@.prefix == d2@.prefix,
        d3@.suffix == d2@.suffix,
        d3@.format == d2@.format,
    ensures
        render_spec(d3@) == render_spec(d1@),
{
    d0.lemma_wf();
    d1.lemma_wf();
    d2.lemma_wf();
    d3.lemma_wf();
    let e0 = d0@.entries;
    let e1 = d1@.entries;
    lemma_pairs_map_sorted(e0);
    lemma_pairs_map_sorted(e1);
    // d1's assignments: the new one, and d0's, which round-trip
    assert forall|i: int| 0 <= i < e1.len() implies valid_key(#[trigger] e1[i].0) && one_line_value(e1[i].1)
        && (e1[i].0 != key ==> parse_value(e1[i].1) == e1[i].1) && (e1[i].0 == key ==> e1[i].1 == value) by {
        let k = e1[i].0;
        assert(pairs_map(e1)[k] == e1[i].1);
        assert(pairs_map(e1).contains_key(k));
        assert(d1.map() == pairs_map(e1));
        assert(d0.map() == pairs_map(e0));
        if k != key {
            assert(pairs_map(e0).insert(key, value).contains_key(k));
            assert(pairs_map(e0).contains_key(k));
            let j = choose|j: int| 0 <= j < e0.len() && #[trigger] e0[j].0 == k;
            assert(pairs_map(e0)[e0[j].0] == e0[j].1);
            lemma_round_trip_value_ends(e1[i].1);
            if e1[i].1.len() > 0 {
                assert(!is_ws(e1[i].1.last()));
            }
        }
    }
    assert(written_doc(d1@));
    lemma_written_stable(d1@);
    lemma_render_parse_parts(d1@);
    let p = spec_parse(render_spec(d1@), d1@.format)->Ok_0;
    let u = unquoted(e1);
    assert(p.2 == u);
    assert(p.3);
    // reading back unquotes only the new value; setting it again restores it
    assert(sorted(u)) by {
        assert forall|i: int, j: int| 0 <= i < j < u.len() implies seq_lt(#[trigger] u[i].0, #[trigger] u[j].0) by {
            assert(u[i].0 == e1[i].0);
            assert(u[j].0 == e1[j].0);
        }
    }
    lemma_pairs_map_sorted(u);
    assert(d3.map() =~= pairs_map(e1)) by {
        assert forall|k: Seq<char>| #[trigger] d3.map().contains_key(k) <==> pairs_map(e1).contains_key(k) by {
            if pairs_map(u).contains_key(k) {
                let i = choose|i: int| 0 <= i < u.len() && #[trigger] u[i].0 == k;
                assert(e1[i].0 == k);
            }
            if pairs_map(e1).contains_key(k) {
                let i = choose|i: int| 0 <= i < e1.len() && #[trigger] e1[i].0 == k;
                assert(u[i].0 == k);
            }
        }
        assert forall|k: Seq<char>| #[trigger] d3.map().contains_key(k) implies d3.map()[k] == pairs_map(e1)[k] by {
            if k == key {
                assert(pairs_map(e1).contains_key(key));
                let i = choose|i: int| 0 <= i < e1.len() && #[trigger] e1[i].0 == key;
                assert(pairs_map(e1)[e1[i].0] == e1[i].1);
            } else {
                let i = choose|i: int| 0 <= i < e1.len() && #[trigger] e1[i].0 == k;
                assert(u[i].0 == k);
                assert(pairs_map(u)[u[i].0] == u[i].1);
                assert(pairs_map(e1)[e1[i].0] == e1[i].1);
            }
        }
    }
    lemma_sorted_unique(d3@.entries, e1);
    assert(d3@ == EnvFileDocView { prefix: p.0, suffix: p.1, entries: e1, had_block: p.3, format: d1@.format });
}


/// Unsetting a key that a set introduced gives back the assignments as
/// they were before the set; the text around the block is untouched and
/// the (now possibly empty) block is kept.
pub proof fn law_unset_undoes_set(d0: EnvFileDoc, d1: EnvFileDoc, d2: EnvFileDoc, key: Seq<char>, value: Seq<char>, removed: bool)
    requires
        d0.wf(),
        !d0.map().contains_key(key),
        // d1: d0 after `set(key, value)`
        d1.wf(),
        d1.map() == d0.map().insert(key, value),
        d1@.had_block,
        d1@.prefix == d0@.prefix,
        d1@.suffix == d0@.suffix,
        d1@.format == d0@.format,
        // d2: d1 after `unset(key)`, which answered `removed`
        d2.wf(),
        removed == d1.map().contains_key(key),
        d2.map() == d1.map().remove(key),
        d2@.had_block == d1@.had_block,
        d2@.prefix == d1@.prefix,
        d2@.suffix == d1@.suffix,
        d2@.format == d1@.format,
    ensures
        removed,
        d2.map() == d0.map(),
        d2@.entries == d0@.entries,
        d2@.prefix == d0@.prefix && d2@.suffix == d0@.suffix && d2@.format == d0@.format,
        d2@.had_block,
{
    d0.lemma_wf();
    d2.lemma_wf();
    assert(d2.map() =~= d0.map());
    lemma_sorted_unique(d2@.entries, d0@.entries);
}


/// Setting a key twice leaves the assignments as before with the key set
/// to the later value, and the key is assigned exactly once. Where the
/// values fit on one line and no line around the block is a marker, the
/// written block holds exactly one line for the key, `key=v2` (or
/// `export key=v2`), among one line per assignment in key order.
pub proof fn law_set_overwrites(d0: EnvFileDoc, d1: EnvFileDoc, d2: EnvFileDoc, key: Seq<char>, v1: Seq<char>, v2: Seq<char>)
    requires
        d0.wf(),
        // d1: d0 after `set(key, v1)`
        d1.wf(),
        d1.map() == d0.map().insert(key, v1),
        d1@.had_block,
        d1@.prefix == d0@.prefix,
        d1@.suffix == d0@.suffix,
        d1@.format == d0@.format,
        // d2: d1 after `set(key, v2)`
        d2.wf(),
        d2.map() == d1.map().insert(key, v2),
        d2@.had_block,
        d2@.prefix == d1@.prefix,
        d2@.suffix == d1@.suffix,
        d2@.format == d1@.format,
    ensures
        d2.map() == d0.map().insert(key, v2),
        exists|i: int| 0 <= i < d2@.entries.len() && d2@.entries[i] == (key, v2),
        forall|i: int, j: int|
            0 <= i < d2@.entries.len() && 0 <= j < d2@.entries.len() && #[trigger] d2@.entries[i].0 == key
                && #[trigger] d2@.entries[j].0 == key ==> i == j,
        (valid_key(key) && one_line_value(v2) && written_entries(d0@.entries) && marker_free(ensure_nl(d0@.prefix))
            && marker_free(ensure_nl(d0@.suffix))) ==> {
            &&& lines(render_spec(d2@)) == lines(ensure_nl(d0@.prefix)) + seq![MARKER_START@, MANAGED_HINT@]
                + entry_lines(d2@.entries, d0@.format) + seq![MARKER_END@] + lines(rendered_tail(d0@.suffix))
            &&& exists|i: int| 0 <= i < d2@.entries.len() && #[trigger] entry_lines(d2@.entries, d0@.format)[i]
                == format_line_spec(key, v2, d0@.format)
                && forall|j: int| 0 <= j < d2@.entries.len() && j != i ==> #[trigger] d2@.entries[j].0 != key
        },
{
    d0.lemma_wf();
    d2.lemma_wf();
    let e = d2@.entries;
    let e0 = d0@.entries;
    lemma_pairs_map_sorted(e);
    lemma_pairs_map_sorted(e0);
    assert(d2.map() =~= d0.map().insert(key, v2));
    assert(pairs_map(e).contains_key(key));
    let i = choose|i: int| 0 <= i < e.len() && #[trigger] e[i].0 == key;
    assert(pairs_map(e)[e[i].0] == e[i].1);
    assert(e[i] == (key, v2));
    assert forall|i: int, j: int|
        0 <= i < e.len() && 0 <= j < e.len() && #[trigger] e[i].0 == key && #[trigger] e[j].0 == key implies i == j by {
        lemma_lt_irreflexive(key);
        if i < j {
            assert(seq_lt(e[i].0, e[j].0));
        } else if j < i {
            assert(seq_lt(e[j].0, e[i].0));
        }
    }
    if valid_key(key) && one_line_value(v2) && written_entries(e0) && marker_free(ensure_nl(d0@.prefix))
        && marker_free(ensure_nl(d0@.suffix)) {
        assert forall|k: int| 0 <= k < e.len() implies valid_key(#[trigger] e[k].0) && one_line_value(e[k].1) by {
            let kk = e[k].0;
            assert(pairs_map(e)[kk] == e[k].1);
            assert(pairs_map(e).contains_key(kk));
            if kk != key {
                assert(pairs_map(e0).contains_key(kk));
                let j = choose|j: int| 0 <= j < e0.len() && #[trigger] e0[j].0 == kk;
                assert(pairs_map(e0)[e0[j].0] == e0[j].1);
                assert(valid_key(e0[j].0));
            }
        }
        law_render_lines(d2);
        assert(entry_lines(e, d0@.format)[i] == format_line_spec(key, v2, d0@.format));
        assert forall|j: int| 0 <= j < e.len() && j != i implies #[trigger] e[j].0 != key by {
            if e[j].0 == key {
                lemma_lt_irreflexive(key);
                if i < j {
                    assert(seq_lt(e[i].0, e[j].0));
                } else {
                    assert(seq_lt(e[j].0, e[i].0));
                }
            }
        }
    }
}


/// Where `e` maps a key, some pair of `e` gives it that value.
proof fn lemma_pairs_map_from(e: Seq<(Seq<char>, Seq<char>)>, k: Seq<char>)
    requires
        pairs_map(e).contains_key(k),
    ensures
        exists|j: int| 0 <= j < e.len() && #[trigger] e[j] == (k, pairs_map(e)[k]),
    decreases e.len(),
{
    if e.last().0 == k {
        assert(e[e.len() - 1] == (k, pairs_map(e)[k]));
    } else {
        lemma_pairs_map_from(e.drop_last(), k);
        let j = choose|j: int| 0 <= j < e.drop_last().len() && #[trigger] e.drop_last()[j] == (k, pairs_map(e.drop_last())[k]);
        assert(e[j] == e.drop_last()[j]);
    }
}

/// Running the same env-file step twice: where the first run turned the
/// file `current` into the text of `v1` (its block with `key` set to
/// `value`), the second run reads that text back and, setting the same
/// assignment, comes to the very same text, so it has nothing to write.
/// This holds where the file's assignments survive unquoting, no line
/// around its block is a marker, no carriage return stands right before a
/// line break there, and the value fits on one line.
pub proof fn law_env_step_settles(
    current: Seq<char>,
    format: Format,
    key: Seq<char>,
    value: Seq<char>,
    v1: EnvFileDocView,
    v3: EnvFileDocView,
)
    requires
        spec_parse(current, format) is Ok,
        good_entries(spec_parse(current, format)->Ok_0.2),
        marker_free(ensure_nl(spec_parse(current, format)->Ok_0.0)),
        marker_free(ensure_nl(spec_parse(current, format)->Ok_0.1)),
        crlf_free(ensure_nl(spec_parse(current, format)->Ok_0.0)),
        crlf_free(ensure_nl(spec_parse(current, format)->Ok_0.1)),
        valid_key(key),
        one_line_value(value),
        // the first run: what `set_env_var_update` renders
        edited_doc(spec_parse(current, format)->Ok_0, v1, pairs_map(spec_parse(current, format)->Ok_0.2).insert(key, value), format),
        v1.had_block,
        // the second run, on the first run's text
        spec_parse(render_spec(v1), format) is Ok ==> edited_doc(
            spec_parse(render_spec(v1), format)->Ok_0,
            v3,
            pairs_map(spec_parse(render_spec(v1), format)->Ok_0.2).insert(key, value),
            format,
        ) && v3.had_block,
    ensures
        spec_parse(render_spec(v1), format) is Ok,
        render_spec(v3) == render_spec(v1),
{
    let p0 = spec_parse(current, format)->Ok_0;
    let e0 = p0.2;
    let e1 = v1.entries;
    lemma_pairs_map_sorted(e1);
    // the first run's assignments: the new one, and the file's, which round-trip
    assert forall|i: int| 0 <= i < e1.len() implies valid_key(#[trigger] e1[i].0) && one_line_value(e1[i].1)
        && (e1[i].0 != key ==> parse_value(e1[i].1) == e1[i].1) && (e1[i].0 == key ==> e1[i].1 == value) by {
        let k = e1[i].0;
        assert(pairs_map(e1)[k] == e1[i].1);
        assert(pairs_map(e1).contains_key(k));
        if k != key {
            assert(pairs_map(e0).insert(key, value).contains_key(k));
            assert(pairs_map(e0).contains_key(k));
            lemma_pairs_map_from(e0, k);
            let j = choose|j: int| 0 <= j < e0.len() && #[trigger] e0[j] == (k, pairs_map(e0)[k]);
            assert(valid_key(e0[j].0) && round_trip_value(e0[j].1));
            lemma_round_trip_value_ends(e1[i].1);
            if e1[i].1.len() > 0 {
                assert(!is_ws(e1[i].1.last()));
            }
        }
    }
    assert(written_doc(v1));
    lemma_written_stable(v1);
    lemma_render_parse_parts(v1);
    let p = spec_parse(render_spec(v1), format)->Ok_0;
    let u = unquoted(e1);
    assert(p.2 == u);
    assert(p.3);
    assert(sorted(u)) by {
        assert forall|i: int, j: int| 0 <= i < j < u.len() implies seq_lt(#[trigger] u[i].0, #[trigger] u[j].0) by {
            assert(u[i].0 == e1[i].0);
            assert(u[j].0 == e1[j].0);
        }
    }
    lemma_pairs_map_sorted(u);
    let m3 = pairs_map(u).insert(key, value);
    assert(m3 =~= pairs_map(e1)) by {
        assert forall|k: Seq<char>| #[trigger] m3.contains_key(k) <==> pairs_map(e1).contains_key(k) by {
            if pairs_map(u).contains_key(k) {
                let i = choose|i: int| 0 <= i < u.len() && #[trigger] u[i].0 == k;
                assert(e1[i].0 == k);
            }
            if pairs_map(e1).contains_key(k) {
                let i = choose|i: int| 0 <= i < e1.len() && #[trigger] e1[i].0 == k;
                assert(u[i].0 == k);
            }
        }
        assert forall|k: Seq<char>| #[trigger] m3.contains_key(k) implies m3[k] == pairs_map(e1)[k] by {
            if k == key {
                assert(pairs_map(e1).contains_key(key));
                let i = choose|i: int| 0 <= i < e1.len() && #[trigger] e1[i].0 == key;
                assert(pairs_map(e1)[e1[i].0] == e1[i].1);
            } else {
                let i = choose|i: int| 0 <= i < e1.len() && #[trigger] e1[i].0 == k;
                assert(u[i].0 == k);
                assert(pairs_map(u)[u[i].0] == u[i].1);
                assert(pairs_map(e1)[e1[i].0] == e1[i].1);
            }
        }
    }
    lemma_sorted_unique(v3.entries, e1);
    assert(v3 == EnvFileDocView { prefix: p.0, suffix: p.1, entries: e1, had_block: p.3, format: v1.format });
}

} // verus!
