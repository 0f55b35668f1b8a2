//! The snapshot store's logic: what each run records, how backups are
//! named and checked, the free-space rule, and the listing order. Reading and writing the
//! files themselves is the caller's part.
use crate::model::{combo_slug, path_join, Goal, Plan, Step};
use crate::resolve::{all_digits, digits_value, u32_digits};
use crate::text::{append_str, chars_of, is_alnum, is_digit, lines, split_lines, split_whitespace, string_of, tokens, views};
use sha2::Digest;
use vstd::prelude::*;

verus! {

/// The schema version of a snapshot manifest.
pub const MANIFEST_SCHEMA_VERSION: u32 = 1;

/// `toml::ser::Error`, carried inside errors.
#[verifier::external_type_specification]
#[verifier::external_body]
pub struct ExTomlSerError(toml::ser::Error);

/// `anyhow::Error`, carried inside errors.
#[verifier::external_type_specification]
#[verifier::external_body]
pub struct ExAnyhowError(anyhow::Error);

/// Why the snapshot store failed.
#[derive(Debug)]
pub enum SnapshotError {
    CreateRoot { path: String, source: std::io::Error },
    ReadSource { path: String, source: std::io::Error },
    WriteBackup { path: String, source: std::io::Error },
    WriteManifest { path: String, source: std::io::Error },
    SerialiseManifest { path: String, source: toml::ser::Error },
    ReadManifest { path: String, source: anyhow::Error },
    Symlink { path: String, source: std::io::Error },
    NotFound { id: String, root: String },
    DiskFull { root: String, need_bytes: u64, free_bytes: u64 },
}

/// A change made (or about to be made) by one step, kept for rollback.
#[derive(Debug, Clone)]
pub enum Artifact {
    /// A file was copied to `backup_relpath`; `existed_before` is false
    /// where there was no file, so that rollback deletes it instead.
    BackupFile {
        step_index: usize,
        original_path: String,
        backup_relpath: String,
        sha256: String,
        existed_before: bool,
    },
    /// Packages installed; `already_present` ones must survive rollback.
    InstalledPackages {
        step_index: usize,
        manager: String,
        packages: Vec<String>,
        already_present: Vec<String>,
    },
    /// A user unit's state before it was changed.
    ServiceChange {
        step_index: usize,
        unit: String,
        previous_enabled: Option<bool>,
        previous_active: Option<bool>,
    },
    /// A check that passed.
    VerifyOk { step_index: usize, summary: String },
    /// A step that changed nothing.
    Skipped { step_index: usize, reason: String },
}

pub open spec fn artifact_step(a: Artifact) -> usize {
    match a {
        Artifact::BackupFile { step_index, .. } => step_index,
        Artifact::InstalledPackages { step_index, .. } => step_index,
        Artifact::ServiceChange { step_index, .. } => step_index,
        Artifact::VerifyOk { step_index, .. } => step_index,
        Artifact::Skipped { step_index, .. } => step_index,
    }
}

impl Artifact {
    /// The index of the step that recorded this artifact.
    pub fn step_index(&self) -> (i: usize)
        ensures
            i == artifact_step(*self),
    {
        match self {
            Artifact::BackupFile { step_index, .. } => *step_index,
            Artifact::InstalledPackages { step_index, .. } => *step_index,
            Artifact::ServiceChange { step_index, .. } => *step_index,
            Artifact::VerifyOk { step_index, .. } => *step_index,
            Artifact::Skipped { step_index, .. } => *step_index,
        }
    }
}

// ------------------------------------------------------------ hashing

/// What `sha256_hex` gives for these bytes: the SHA-256 digest in
/// lowercase hexadecimal.
pub uninterp spec fn sha256_text(bytes: Seq<u8>) -> Seq<char>;

pub open spec fn is_lower_hex(c: char) -> bool {
    ('0' <= c <= '9') || ('a' <= c <= 'f')
}

/// `sha2::Sha256::digest` formatted with `{:x}`: the digest of the bytes,
/// named `sha256_text`, as 64 lowercase hexadecimal digits (two per byte
/// of the 32-byte digest, as generic-array's `LowerHex` writes them).
#[verifier::external_body]
pub fn sha256_hex(bytes: &[u8]) -> (s: String)
    ensures
        s@ == sha256_text(bytes@),
        s@.len() == 64,
        forall|i: int| 0 <= i < 64 ==> is_lower_hex(#[trigger] s@[i]),
{
    format!("{:x}", sha2::Sha256::digest(bytes))
}

// ------------------------------------------------------------ backup names

/// `trim_start_matches('/')`.
pub open spec fn strip_slashes(s: Seq<char>) -> Seq<char>
    decreases s.len(),
{
    if s.len() > 0 && s[0] == '/' {
        strip_slashes(s.drop_first())
    } else {
        s
    }
}

pub open spec fn backup_char(c: char) -> char {
    if is_alnum(c) || c == '.' || c == '-' {
        c
    } else {
        '_'
    }
}

/// The backup file name of a path: leading slashes dropped, every
/// character but ASCII letters, digits, `.` and `-` turned into `_`, and
/// `.bak` appended.
pub open spec fn backup_name(p: Seq<char>) -> Seq<char> {
    strip_slashes(p).map_values(|c: char| backup_char(c)) + ".bak"@
}

/// The backup file name of `p`, such as `etc_environment.bak`.
pub fn sanitise_path_for_backup(p: &str) -> (s: String)
    ensures
        s@ == backup_name(p@),
{
    let cs = chars_of(p);
    let mut start: usize = 0;
    assert(cs@.skip(0) =~= cs@);
    while start < cs.len() && cs[start] == '/'
        invariant
            start <= cs.len(),
            strip_slashes(cs@) == strip_slashes(cs@.skip(start as int)),
        decreases cs.len() - start,
    {
        assert(cs@.skip(start as int).drop_first() =~= cs@.skip(start + 1));
        start += 1;
    }
    let ghost t = cs@.skip(start as int);
    assert(strip_slashes(t) == t);
    let mut out: Vec<char> = Vec::new();
    let mut i: usize = start;
    while i < cs.len()
        invariant
            start <= i <= cs.len(),
            t == cs@.skip(start as int),
            out@ == t.take(i - start).map_values(|c: char| backup_char(c)),
        decreases cs.len() - i,
    {
        let c = cs[i];
        let keep = ('a' <= c && c <= 'z') || ('A' <= c && c <= 'Z') || ('0' <= c && c <= '9') || c
            == '.' || c == '-';
        out.push(if keep { c } else { '_' });
        assert(t.take(i + 1 - start) =~= t.take(i - start).push(c));
        i += 1;
        assert(out@ =~= t.take(i - start).map_values(|c: char| backup_char(c)));
    }
    assert(t.take(cs.len() - start) =~= t);
    append_str(&mut out, ".bak");
    string_of(&out)
}

/// Where a backup goes inside the snapshot directory.
pub open spec fn backup_relpath_of(p: Seq<char>) -> Seq<char> {
    path_join("files"@, backup_name(p))
}

/// The artifact of backing up `source`, and whether the backup must be
/// written. `content` is the source's bytes, `None` where it does not
/// exist (rollback then deletes it); `existing` is what an earlier backup
/// of the same name holds, if any. An existing backup with the same
/// digest is kept as it is.
pub fn backup_artifact(
    step_index: usize,
    source: &str,
    content: Option<&[u8]>,
    existing: Option<&[u8]>,
) -> (r: (Artifact, bool))
    ensures
        match content {
            None => !r.1 && (r.0 matches Artifact::BackupFile {
                step_index: si,
                original_path,
                backup_relpath,
                sha256,
                existed_before,
            } && si == step_index && original_path@ == source@ && backup_relpath@.len() == 0
                && sha256@.len() == 0 && !existed_before),
            Some(b) => r.0 matches Artifact::BackupFile {
                step_index: si,
                original_path,
                backup_relpath,
                sha256,
                existed_before,
            } && si == step_index && original_path@ == source@ && backup_relpath@
                == backup_relpath_of(source@) && sha256@ == sha256_text(b@) && existed_before
                && r.1 == match existing {
                None => true,
                Some(e) => sha256_text(e@) != sha256_text(b@),
            },
        },
{
    match content {
        None => (
            Artifact::BackupFile {
                step_index,
                original_path: source.to_owned(),
                backup_relpath: String::new(),
                sha256: String::new(),
                existed_before: false,
            },
            false,
        ),
        Some(bytes) => {
            let name = sanitise_path_for_backup(source);
            let relpath = crate::model::join_path("files", name.as_str());
            let sha = sha256_hex(bytes);
            let must_write = match existing {
                Some(e) => sha256_hex(e) != sha,
                None => true,
            };
            (
                Artifact::BackupFile {
                    step_index,
                    original_path: source.to_owned(),
                    backup_relpath: relpath,
                    sha256: sha,
                    existed_before: true,
                },
                must_write,
            )
        },
    }
}

/// The path of a backup's digest sidecar.
pub fn sidecar_relpath(backup_relpath: &str) -> (s: String)
    ensures
        s@ == backup_relpath@ + ".sha256"@,
{
    let mut v = chars_of(backup_relpath);
    append_str(&mut v, ".sha256");
    string_of(&v)
}

/// The sidecar's one line: the digest, two spaces, the backup's name.
pub fn sidecar_line(sha: &str, backup_name: &str) -> (s: String)
    ensures
        s@ == sha@ + "  "@ + backup_name@ + "\n"@,
{
    let mut v = chars_of(sha);
    append_str(&mut v, "  ");
    append_str(&mut v, backup_name);
    append_str(&mut v, "\n");
    string_of(&v)
}

/// Whether backed-up bytes may be restored: a recorded digest must match
/// theirs; with none recorded they are taken as they are.
pub fn backup_matches(expected_sha: &str, bytes: &[u8]) -> (ok: bool)
    ensures
        ok == (expected_sha@.len() == 0 || sha256_text(bytes@) == expected_sha@),
{
    if expected_sha.is_empty() {
        return true;
    }
    let got = sha256_hex(bytes);
    let want = expected_sha.to_owned();
    got == want
}

// ------------------------------------------------------------ free space

/// The digits of a `u64` number after an optional `+`.
pub open spec fn parse_u64_spec(t: Seq<char>) -> Option<u64> {
    let d = u32_digits(t);
    if d.len() > 0 && all_digits(d) && digits_value(d) <= u64::MAX {
        Some(digits_value(d) as u64)
    } else {
        None
    }
}

proof fn lemma_digits_value_mono(d: Seq<char>, i: int)
    requires
        0 <= i <= d.len(),
        forall|j: int| 0 <= j < d.len() ==> is_digit(#[trigger] d[j]),
    ensures
        digits_value(d.take(i)) <= digits_value(d),
    decreases d.len() - i,
{
    if i < d.len() {
        lemma_digits_value_mono(d, i + 1);
        assert(d.take(i + 1).drop_last() =~= d.take(i));
        assert(is_digit(d[i]));
    } else {
        assert(d.take(i) =~= d);
    }
}

/// `str::parse::<u64>`.
pub fn parse_u64(t: &Vec<char>) -> (r: Option<u64>)
    ensures
        r == parse_u64_spec(t@),
{
    let start: usize = if t.len() > 0 && t[0] == '+' {
        1
    } else {
        0
    };
    let ghost d = u32_digits(t@);
    assert(d =~= t@.skip(start as int));
    if start >= t.len() {
        return None;
    }
    let mut acc: u128 = 0;
    let mut i: usize = start;
    assert(d.take(0) =~= Seq::<char>::empty());
    while i < t.len()
        invariant
            start <= i <= t.len(),
            d == t@.skip(start as int),
            d == u32_digits(t@),
            forall|j: int| 0 <= j < i - start ==> is_digit(#[trigger] d[j]),
            acc == digits_value(d.take(i - start)),
            acc <= u64::MAX,
        decreases t.len() - i,
    {
        let c = t[i];
        assert(d[i - start] == c);
        if !('0' <= c && c <= '9') {
            assert(!is_digit(d[i - start]));
            assert(!all_digits(d));
            return None;
        }
        let dv = (c as u32 - '0' as u32) as u128;
        assert(d.take(i - start + 1).drop_last() =~= d.take(i - start));
        assert(d.take(i - start + 1).last() == c);
        let next = acc * 10 + dv;
        assert(next == digits_value(d.take(i - start + 1)));
        if next > 0xFFFF_FFFF_FFFF_FFFF {
            proof {
                if all_digits(d) {
                    lemma_digits_value_mono(d, i - start + 1);
                    assert(digits_value(d) > u64::MAX);
                }
            }
            return None;
        }
        acc = next;
        i += 1;
    }
    assert(d.take(t.len() - start) =~= d);
    Some(acc as u64)
}

/// The free bytes `df -Pk` reports: the fourth field of the line after
/// the header, in kibibytes, times 1024; `None` where the output has no
/// such number or the product overflows.
pub open spec fn df_free_bytes(out: Seq<char>) -> Option<u64> {
    let ls = lines(out);
    if ls.len() < 2 {
        None
    } else {
        let f = tokens(ls[1]);
        if f.len() < 4 {
            None
        } else {
            match parse_u64_spec(f[3]) {
                None => None,
                Some(kb) => if kb * 1024 <= u64::MAX {
                    Some((kb * 1024) as u64)
                } else {
                    None
                },
            }
        }
    }
}

/// Reads the available space out of `df -Pk` output.
pub fn parse_df_free_bytes(stdout: &str) -> (r: Option<u64>)
    ensures
        r == df_free_bytes(stdout@),
{
    let chars = chars_of(stdout);
    let ls = split_lines(&chars);
    if ls.len() < 2 {
        return None;
    }
    assert(views(ls@)[1] == ls@[1]@);
    let fields = split_whitespace(&ls[1]);
    if fields.len() < 4 {
        return None;
    }
    assert(views(fields@)[3] == fields@[3]@);
    match parse_u64(&fields[3]) {
        None => None,
        Some(kb) => kb.checked_mul(1024),
    }
}

/// One snapshot root directory.
#[derive(Debug, Clone)]
pub struct SnapshotStore {
    root: String,
}

impl SnapshotStore {
    /// A store over `root`; nothing is created yet.
    pub fn new(root: String) -> (s: SnapshotStore)
        ensures
            s.root_path() == root@,
    {
        SnapshotStore { root }
    }

    pub closed spec fn root_path(&self) -> Seq<char> {
        self.root@
    }

    /// The root directory.
    pub fn root(&self) -> (r: &str)
        ensures
            r@ == self.root_path(),
    {
        self.root.as_str()
    }

    /// Refuses to go on with less than `need_bytes` free. `free_bytes` is
    /// what the file system reports, `None` where that is unknown, which
    /// counts as unlimited.
    pub fn check_disk_space(&self, need_bytes: u64, free_bytes: Option<u64>) -> (r: Result<(), SnapshotError>)
        ensures
            match free_bytes {
                Some(f) if f < need_bytes => r matches Err(SnapshotError::DiskFull {
                    root,
                    need_bytes: n,
                    free_bytes: fb,
                }) && root@ == self.root_path() && n == need_bytes && fb == f,
                _ => r is Ok,
            },
    {
        let free = match free_bytes {
            Some(f) => f,
            None => u64::MAX,
        };
        if free < need_bytes {
            return Err(SnapshotError::DiskFull { root: self.root.clone(), need_bytes, free_bytes: free });
        }
        Ok(())
    }
}

// ------------------------------------------------------------ manifests

/// A run's record: its plan, what it did so far, and whether it finished.
#[derive(Debug)]
pub struct Manifest {
    pub schema_version: u32,
    pub id: String,
    /// Creation time, in seconds since the Unix epoch (UTC).
    pub created_at: i64,
    /// True until the run's last step is done.
    pub incomplete: bool,
    pub plan: Plan,
    pub artifacts: Vec<Artifact>,
}

/// The one-line description of a goal.
pub open spec fn goal_text(g: Goal) -> Seq<char> {
    match g {
        Goal::Install { combo } => "install "@ + combo_slug(combo),
        Goal::Uninstall { snapshot_id } => match snapshot_id {
            Some(id) => "uninstall (of "@ + id@ + ")"@,
            None => "uninstall"@,
        },
        Goal::Switch { from, to } => "switch "@ + combo_slug(from) + " → "@ + combo_slug(to),
    }
}

impl Manifest {
    /// A fresh manifest for `plan`, marked incomplete, with no artifacts.
    pub fn new(plan: Plan, id: String) -> (m: Manifest)
        ensures
            m.schema_version == MANIFEST_SCHEMA_VERSION,
            m.id@ == id@,
            m.incomplete,
            m.plan == plan,
            m.artifacts@.len() == 0,
    {
        Manifest {
            schema_version: MANIFEST_SCHEMA_VERSION,
            id,
            created_at: crate::model::utc_now_secs(),
            incomplete: true,
            plan,
            artifacts: Vec::new(),
        }
    }

    /// What the run was for, in one line.
    pub fn goal_summary(&self) -> (s: String)
        ensures
            s@ == goal_text(self.plan.goal),
    {
        let mut v: Vec<char> = Vec::new();
        match &self.plan.goal {
            Goal::Install { combo } => {
                append_str(&mut v, "install ");
                let s = combo.slug();
                append_str(&mut v, s.as_str());
            },
            Goal::Uninstall { snapshot_id } => match snapshot_id {
                Some(id) => {
                    append_str(&mut v, "uninstall (of ");
                    append_str(&mut v, id.as_str());
                    append_str(&mut v, ")");
                },
                None => {
                    append_str(&mut v, "uninstall");
                },
            },
            Goal::Switch { from, to } => {
                append_str(&mut v, "switch ");
                let a = from.slug();
                append_str(&mut v, a.as_str());
                append_str(&mut v, " → ");
                let b = to.slug();
                append_str(&mut v, b.as_str());
            },
        }
        string_of(&v)
    }
}

/// One snapshot directory and its manifest.
#[derive(Debug)]
pub struct SnapshotHandle {
    dir: String,
    manifest: Manifest,
}

impl SnapshotHandle {
    /// A handle over a directory and the manifest it holds.
    pub fn from_parts(dir: String, manifest: Manifest) -> (h: SnapshotHandle)
        ensures
            h.dir_path() == dir@,
            h.manifest_ref() == manifest,
    {
        SnapshotHandle { dir, manifest }
    }

    pub closed spec fn dir_path(&self) -> Seq<char> {
        self.dir@
    }

    pub closed spec fn manifest_ref(&self) -> Manifest {
        self.manifest
    }

    pub fn id(&self) -> (s: &str)
        ensures
            s@ == self.manifest_ref().id@,
    {
        self.manifest.id.as_str()
    }

    pub fn dir(&self) -> (s: &str)
        ensures
            s@ == self.dir_path(),
    {
        self.dir.as_str()
    }

    pub fn manifest(&self) -> (m: &Manifest)
        ensures
            *m == self.manifest_ref(),
    {
        &self.manifest
    }

    /// Appends an artifact; everything else stays.
    pub fn record(&mut self, artifact: Artifact)
        ensures
            final(self).manifest_ref().artifacts@ == old(self).manifest_ref().artifacts@.push(artifact),
            final(self).manifest_ref().incomplete == old(self).manifest_ref().incomplete,
            final(self).manifest_ref().id == old(self).manifest_ref().id,
            final(self).manifest_ref().plan == old(self).manifest_ref().plan,
            final(self).dir_path() == old(self).dir_path(),
    {
        self.manifest.artifacts.push(artifact);
    }

    /// Marks the run complete; everything else stays.
    pub fn mark_complete(&mut self)
        ensures
            !final(self).manifest_ref().incomplete,
            final(self).manifest_ref().artifacts == old(self).manifest_ref().artifacts,
            final(self).manifest_ref().id == old(self).manifest_ref().id,
            final(self).manifest_ref().plan == old(self).manifest_ref().plan,
            final(self).dir_path() == old(self).dir_path(),
    {
        self.manifest.incomplete = false;
    }

    /// The plan's step an artifact's index points to.
    pub fn find_step(&self, step_index: usize) -> (r: Option<&Step>)
        ensures
            step_index < self.manifest_ref().plan.steps@.len() ==> r == Some(
                &self.manifest_ref().plan.steps@[step_index as int],
            ),
            step_index >= self.manifest_ref().plan.steps@.len() ==> r is None,
    {
        if step_index < self.manifest.plan.steps.len() {
            Some(&self.manifest.plan.steps[step_index])
        } else {
            None
        }
    }
}


// ------------------------------------------------------------ listing

/// One row of the snapshot listing.
#[derive(Debug, Clone)]
pub struct SnapshotMeta {
    pub id: String,
    /// Creation time, in seconds since the Unix epoch (UTC).
    pub created_at: i64,
    pub goal: String,
    pub incomplete: bool,
}

/// The listing row of a snapshot's manifest.
pub fn meta_of(m: &Manifest) -> (r: SnapshotMeta)
    ensures
        r.id@ == m.id@,
        r.created_at == m.created_at,
        r.goal@ == goal_text(m.plan.goal),
        r.incomplete == m.incomplete,
{
    SnapshotMeta { id: m.id.clone(), created_at: m.created_at, goal: m.goal_summary(), incomplete: m.incomplete }
}

/// Where a row goes among rows listed newest first: before the first
/// strictly older row, so after every row of the same time.
pub open spec fn newest_pos(o: Seq<SnapshotMeta>, x: SnapshotMeta) -> int
    decreases o.len(),
{
    if o.len() == 0 {
        0
    } else {
        let k = newest_pos(o.drop_last(), x);
        if k < o.len() - 1 {
            k
        } else if x.created_at > o.last().created_at {
            o.len() - 1
        } else {
            o.len() as int
        }
    }
}

/// The rows newest first, rows of the same time in the order given (a
/// stable sort on the creation time, descending).
pub open spec fn newest_first_spec(s: Seq<SnapshotMeta>) -> Seq<SnapshotMeta>
    decreases s.len(),
{
    if s.len() == 0 {
        seq![]
    } else {
        let r = newest_first_spec(s.drop_last());
        r.insert(newest_pos(r, s.last()), s.last())
    }
}

proof fn lemma_newest_pos(o: Seq<SnapshotMeta>, x: SnapshotMeta, k: int)
    requires
        0 <= k <= o.len(),
        forall|j: int| 0 <= j < k ==> !(x.created_at > (#[trigger] o[j]).created_at),
        k < o.len() ==> x.created_at > o[k].created_at,
    ensures
        newest_pos(o, x) == k,
    decreases o.len(),
{
    if o.len() > 0 {
        let d = o.drop_last();
        if k < o.len() - 1 {
            assert(d[k] == o[k]);
            lemma_newest_pos(d, x, k);
        } else {
            lemma_newest_pos(d, x, d.len() as int);
        }
    }
}

/// Orders the listing newest first; rows of the same time keep their
/// order.
pub fn newest_first(rows: Vec<SnapshotMeta>) -> (r: Vec<SnapshotMeta>)
    ensures
        r@ == newest_first_spec(rows@),
        forall|i: int, j: int| 0 <= i < j < r@.len() ==> (#[trigger] r@[i]).created_at >= (#[trigger] r@[j]).created_at,
{
    let ghost all = rows@;
    assert(all.len() == rows.len());
    let mut out: Vec<SnapshotMeta> = Vec::new();
    let mut rest = rows;
    assert(all.take(0) =~= Seq::<SnapshotMeta>::empty());
    let mut i: usize = 0;
    while rest.len() > 0
        invariant
            all.len() <= usize::MAX,
            i + rest@.len() == all.len(),
            rest@ == all.skip(i as int),
            out@ == newest_first_spec(all.take(i as int)),
            forall|a: int, b: int| 0 <= a < b < out@.len() ==> (#[trigger] out@[a]).created_at >= (#[trigger] out@[b]).created_at,
        decreases rest@.len(),
    {
        let x = rest.remove(0);
        assert(x == all[i as int]);
        assert(all.take(i + 1).drop_last() =~= all.take(i as int));
        assert(all.take(i + 1).last() == all[i as int]);
        let ghost o = out@;
        let mut k: usize = 0;
        while k < out.len() && !(x.created_at > out[k].created_at)
            invariant
                k <= out.len(),
                out@ == o,
                forall|j: int| 0 <= j < k ==> !(x.created_at > (#[trigger] o[j]).created_at),
            decreases out.len() - k,
        {
            k += 1;
        }
        proof {
            lemma_newest_pos(o, x, k as int);
        }
        out.insert(k, x);
        assert(out@ =~= o.insert(k as int, x));
        assert forall|a: int, b: int| 0 <= a < b < out@.len() implies (#[trigger] out@[a]).created_at >= (#[trigger] out@[b]).created_at by {
            if b < k {
                assert(out@[a] == o[a] && out@[b] == o[b]);
            } else if b == k {
                assert(out@[a] == o[a]);
            } else if a == k {
                assert(out@[b] == o[b - 1]);
                if b - 1 > k {
                    assert(o[k as int].created_at >= o[b - 1].created_at);
                }
            } else if a < k {
                assert(out@[a] == o[a] && out@[b] == o[b - 1]);
            } else {
                assert(out@[a] == o[a - 1] && out@[b] == o[b - 1]);
            }
        }
        assert(all.skip(i as int).skip(1) =~= all.skip(i + 1));
        i += 1;
    }
    assert(all.take(i as int) =~= all);
    out
}


// ------------------------------------------------------------ restoring

/// What restoring one artifact asks for.
#[derive(Debug)]
pub enum RestoreStep {
    /// Nothing: the artifact is not a backup.
    Nothing,
    /// The file did not exist before the run: remove it (a failure to
    /// remove it is ignored).
    RemoveCreated { path: String },
    /// Read the backup at `backup_relpath` (under the snapshot directory),
    /// check it against `sha256`, and write it back to `path`.
    PutBack { path: String, backup_relpath: String, sha256: String },
}

/// How an artifact is restored: a backup of a file that existed is put
/// back, one of a file that did not is removed, anything else is left.
pub fn restore_step(artifact: &Artifact) -> (r: RestoreStep)
    ensures
        match *artifact {
            Artifact::BackupFile { original_path, backup_relpath, sha256, existed_before, .. } => if existed_before {
                r matches RestoreStep::PutBack { path, backup_relpath: b, sha256: h }
                    && path@ == original_path@ && b@ == backup_relpath@ && h@ == sha256@
            } else {
                r matches RestoreStep::RemoveCreated { path } && path@ == original_path@
            },
            _ => r is Nothing,
        },
{
    match artifact {
        Artifact::BackupFile { original_path, backup_relpath, sha256, existed_before, .. } => {
            if *existed_before {
                RestoreStep::PutBack {
                    path: original_path.clone(),
                    backup_relpath: backup_relpath.clone(),
                    sha256: sha256.clone(),
                }
            } else {
                RestoreStep::RemoveCreated { path: original_path.clone() }
            }
        },
        _ => RestoreStep::Nothing,
    }
}

} // verus!
