//! The encrypted file store: path resolution, hierarchical recipient
//! lookup, permission policy, encryption-tool invocation arguments and
//! outcome classification.
//!
//! The store itself is a pure configuration value; all mutable state lives
//! on the filesystem.  The functions here compute what the unverified
//! shell around this library then carries out: which backing file a
//! relative secret path resolves to, which marker files to probe for a
//! recipient and what the probe results mean, which arguments to hand the
//! encryption tool, and how to classify the tool's exit.

use vstd::prelude::*;

use crate::error::{Error, IoKind};
use crate::text::{decode_lossy, lossy_decode, split_ascii_ws, split_ws_spec, trim, trim_spec};

verus! {

/// The directory mode derived from a umask-style value: the complement of
/// the mask, within the lower three octal digits.
pub open spec fn dir_mode_spec(umask: u32) -> u32 {
    !umask & 0o777
}

/// The file mode derived from a umask-style value: the complement of the
/// mask, within the lower three octal digits and never including an
/// execute bit.
pub open spec fn file_mode_spec(umask: u32) -> u32 {
    !(umask | 0o111) & 0o777
}

/// For every umask-style value, the derived file mode has no execute bit
/// set.
pub proof fn lemma_file_mode_never_executable(umask: u32)
    ensures
        file_mode_spec(umask) & 0o111 == 0,
{
    assert((!(umask | 0o111) & 0o777) & 0o111 == 0) by (bit_vector);
}

/// The suffix appended to a secret's relative path to name its backing
/// file.
pub open spec fn gpg_suffix() -> Seq<char> {
    seq!['.', 'g', 'p', 'g']
}

/// The reserved file name of a recipient marker.
pub open spec fn marker_name() -> Seq<char> {
    seq!['.', 'g', 'p', 'g', '-', 'i', 'd']
}

/// Joining a relative path onto a base with a single separator; an empty
/// relative path leaves the base as it is.
pub open spec fn join_spec(base: Seq<char>, rel: Seq<char>) -> Seq<char> {
    if rel.len() == 0 {
        base
    } else {
        base + seq!['/'] + rel
    }
}

/// Joins a relative path onto a base path.
pub fn join_path(base: &str, rel: &str) -> (r: String)
    ensures
        r@ == join_spec(base@, rel@),
{
    if rel.is_empty() {
        String::from_str(base)
    } else {
        let mut r = String::from_str(base);
        r.append("/");
        r.append(rel);
        proof {
            reveal_strlit("/");
            assert(r@ =~= base@ + seq!['/'] + rel@);
        }
        r
    }
}

/// Whether `p` already ends with the backing-file suffix.
pub open spec fn has_gpg_suffix(p: Seq<char>) -> bool {
    p.len() >= 4 && p.subrange(p.len() - 4, p.len() as int) == gpg_suffix()
}

/// Executable check for [`has_gpg_suffix`].
pub fn ends_with_gpg(p: &str) -> (r: bool)
    ensures
        r == has_gpg_suffix(p@),
{
    let n = p.unicode_len();
    if n < 4 {
        return false;
    }
    let r = p.get_char(n - 4) == '.' && p.get_char(n - 3) == 'g' && p.get_char(n - 2) == 'p'
        && p.get_char(n - 1) == 'g';
    proof {
        if r {
            assert(p@.subrange(n - 4, n as int) =~= gpg_suffix());
        }
        if has_gpg_suffix(p@) {
            assert(p@[n - 4] == p@.subrange(n - 4, n as int)[0]);
            assert(p@[n - 3] == p@.subrange(n - 4, n as int)[1]);
            assert(p@[n - 2] == p@.subrange(n - 4, n as int)[2]);
            assert(p@[n - 1] == p@.subrange(n - 4, n as int)[3]);
        }
    }
    r
}

/// The backing file of the secret at relative path `rel` under root
/// `dir`: the joined path, with the backing-file suffix appended if not
/// already present.
pub open spec fn full_secret_path_spec(dir: Seq<char>, rel: Seq<char>) -> Seq<char> {
    let j = join_spec(dir, rel);
    if has_gpg_suffix(j) {
        j
    } else {
        j + gpg_suffix()
    }
}

/// A relative path with the backing-file suffix already appended
/// addresses the same backing file as the bare relative path does.
pub proof fn lemma_gpg_suffix_normalization(dir: Seq<char>, rel: Seq<char>)
    requires
        rel.len() > 0,
        !has_gpg_suffix(rel),
    ensures
        full_secret_path_spec(dir, rel + gpg_suffix()) == full_secret_path_spec(dir, rel),
{
    let j = join_spec(dir, rel);
    let j2 = join_spec(dir, rel + gpg_suffix());
    assert(j2 =~= j + gpg_suffix());
    assert(j2.subrange(j2.len() - 4, j2.len() as int) =~= gpg_suffix());
    assert(has_gpg_suffix(j2));
    if has_gpg_suffix(j) {
        if rel.len() >= 4 {
            assert(rel.subrange(rel.len() - 4, rel.len() as int) =~= j.subrange(
                j.len() - 4,
                j.len() as int,
            ));
            assert(false);
        } else {
            let slash_pos = dir.len() as int;
            assert(j[slash_pos] == '/');
            assert(j.subrange(j.len() - 4, j.len() as int)[3 - rel.len()] == j[slash_pos]);
            assert(gpg_suffix()[3 - rel.len()] != '/');
            assert(false);
        }
    }
}

/// Everything before the last separator of `p`; empty when `p` holds no
/// separator.
pub open spec fn parent_dir_spec(p: Seq<char>) -> Seq<char>
    decreases p.len(),
{
    if p.len() == 0 {
        p
    } else if p[p.len() - 1] == '/' {
        p.take(p.len() - 1)
    } else {
        parent_dir_spec(p.take(p.len() - 1))
    }
}

proof fn lemma_parent_shorter(p: Seq<char>)
    requires
        p.len() > 0,
    ensures
        parent_dir_spec(p).len() < p.len(),
    decreases p.len(),
{
    if p[p.len() - 1] != '/' {
        let q = p.take(p.len() - 1);
        if p.len() > 1 {
            lemma_parent_shorter(q);
        } else {
            assert(q.len() == 0);
            assert(parent_dir_spec(q) == q);
        }
    }
}

proof fn lemma_parent_no_slash(p: Seq<char>)
    requires
        forall|j: int| 0 <= j < p.len() ==> p[j] != '/',
    ensures
        parent_dir_spec(p).len() == 0,
    decreases p.len(),
{
    if p.len() > 0 {
        let q = p.take(p.len() - 1);
        assert forall|j: int| 0 <= j < q.len() implies q[j] != '/' by {}
        lemma_parent_no_slash(q);
    }
}

proof fn lemma_parent_char(p: Seq<char>, k: int)
    requires
        0 <= k < p.len(),
        p[k] == '/',
        forall|j: int| k < j < p.len() ==> p[j] != '/',
    ensures
        parent_dir_spec(p) == p.take(k),
    decreases p.len(),
{
    if k < p.len() - 1 {
        let q = p.take(p.len() - 1);
        assert(p[p.len() - 1] != '/');
        assert forall|j: int| k < j < q.len() implies q[j] != '/' by {}
        lemma_parent_char(q, k);
        assert(q.take(k) =~= p.take(k));
    }
}

/// Returns everything before the last separator of `p`, and the empty
/// path when `p` holds no separator.
pub fn parent_dir(p: &str) -> (r: String)
    ensures
        r@ == parent_dir_spec(p@),
{
    let n = p.unicode_len();
    let mut i: usize = n;
    while i > 0 && p.get_char(i - 1) != '/'
        invariant
            i <= n,
            n == p@.len(),
            forall|j: int| i <= j < n ==> p@[j] != '/',
        decreases i,
    {
        i = i - 1;
    }
    if i == 0 {
        proof {
            lemma_parent_no_slash(p@);
        }
        String::new()
    } else {
        proof {
            lemma_parent_char(p@, i - 1);
        }
        String::from_str(p.substring_char(0, i - 1))
    }
}

/// The directories consulted when resolving a recipient for `dir` in a
/// store rooted at `root`: `dir` itself, then each ancestor in turn,
/// stopping once the root — or, for a path outside the root, the empty
/// path — has been reached.
pub open spec fn ancestors_spec(dir: Seq<char>, root: Seq<char>) -> Seq<Seq<char>>
    decreases dir.len(),
    via ancestors_spec_decreases
{
    if dir == root || dir.len() == 0 {
        seq![dir]
    } else {
        seq![dir] + ancestors_spec(parent_dir_spec(dir), root)
    }
}

#[via_fn]
proof fn ancestors_spec_decreases(dir: Seq<char>, root: Seq<char>) {
    if !(dir == root || dir.len() == 0) {
        lemma_parent_shorter(dir);
    }
}

/// The marker file of a directory: the reserved marker name joined onto
/// it.
pub open spec fn marker_of(d: Seq<char>) -> Seq<char> {
    join_spec(d, marker_name())
}

/// The marker files of a sequence of directories, in the same order.
pub open spec fn marker_list(dirs: Seq<Seq<char>>) -> Seq<Seq<char>> {
    dirs.map_values(|d: Seq<char>| marker_of(d))
}

/// The marker file of the directory `d`.
pub fn marker_file_path(d: &str) -> (r: String)
    ensures
        r@ == marker_of(d@),
{
    let r = join_path(d, ".gpg-id");
    proof {
        reveal_strlit(".gpg-id");
        assert(".gpg-id"@ =~= marker_name());
    }
    r
}

/// The result of probing one candidate marker file: its contents, its
/// absence, or an I/O failure of the given kind.
#[derive(Debug, Clone)]
pub enum ProbeOutcome {
    Found(String),
    Missing,
    Failed(IoKind),
}

/// What a sequence of probe outcomes, in nearest-first candidate order,
/// resolves to: the trimmed contents of the first marker found; an I/O
/// error if a probe failed before any marker was found; not-initialized
/// when every candidate was missing.
pub open spec fn resolve_spec(outcomes: Seq<ProbeOutcome>) -> Result<Seq<char>, Error>
    decreases outcomes.len(),
{
    if outcomes.len() == 0 {
        Err(Error::NotInitialized)
    } else {
        match outcomes[0] {
            ProbeOutcome::Found(s) => Ok(trim_spec(s@)),
            ProbeOutcome::Failed(k) => Err(Error::IoError(k)),
            ProbeOutcome::Missing => resolve_spec(outcomes.drop_first()),
        }
    }
}

/// Nearest marker wins: when every candidate before `k` is missing and
/// the candidate at `k` was found, resolution yields the trimmed
/// contents of the candidate at `k`, whatever the outcomes after it.
pub proof fn lemma_first_found_wins(outcomes: Seq<ProbeOutcome>, k: int)
    requires
        0 <= k < outcomes.len(),
        forall|j: int| 0 <= j < k ==> outcomes[j] is Missing,
        outcomes[k] is Found,
    ensures
        resolve_spec(outcomes) == Ok::<Seq<char>, Error>(trim_spec(outcomes[k]->Found_0@)),
    decreases k,
{
    if k > 0 {
        let rest = outcomes.drop_first();
        assert forall|j: int| 0 <= j < k - 1 implies rest[j] is Missing by {}
        lemma_first_found_wins(rest, k - 1);
    }
}

/// When every candidate marker is missing, resolution fails with the
/// not-initialized error.
pub proof fn lemma_all_missing_not_initialized(outcomes: Seq<ProbeOutcome>)
    requires
        forall|j: int| 0 <= j < outcomes.len() ==> outcomes[j] is Missing,
    ensures
        resolve_spec(outcomes) == Err::<Seq<char>, Error>(Error::NotInitialized),
    decreases outcomes.len(),
{
    if outcomes.len() > 0 {
        let rest = outcomes.drop_first();
        assert forall|j: int| 0 <= j < rest.len() implies rest[j] is Missing by {}
        lemma_all_missing_not_initialized(rest);
    }
}

/// Decides the recipient from the probe outcomes of the candidate marker
/// files, nearest first: the first marker found wins and its contents are
/// trimmed; a failed probe aborts the walk with its I/O error; if every
/// candidate is missing, the store is not initialized for that directory.
pub fn resolve_recipient(outcomes: &Vec<ProbeOutcome>) -> (r: Result<String, Error>)
    ensures
        (match (r, resolve_spec(outcomes@)) {
            (Ok(s), Ok(t)) => s@ == t,
            (Err(e1), Err(e2)) => e1 == e2,
            _ => false,
        }),
{
    let n = outcomes.len();
    let mut i: usize = 0;
    proof {
        assert(outcomes@.skip(0) =~= outcomes@);
    }
    while i < n
        invariant
            n == outcomes@.len(),
            i <= n,
            resolve_spec(outcomes@) == resolve_spec(outcomes@.skip(i as int)),
        decreases n - i,
    {
        let o = &outcomes[i];
        match o {
            ProbeOutcome::Found(s) => {
                proof {
                    assert(outcomes@.skip(i as int)[0] == outcomes@[i as int]);
                }
                return Ok(trim(s.as_str()));
            },
            ProbeOutcome::Failed(k) => {
                proof {
                    assert(outcomes@.skip(i as int)[0] == outcomes@[i as int]);
                }
                return Err(Error::IoError(*k));
            },
            ProbeOutcome::Missing => {
                proof {
                    assert(outcomes@.skip(i as int)[0] == outcomes@[i as int]);
                    assert(outcomes@.skip(i as int).drop_first() =~= outcomes@.skip(i + 1));
                }
                i = i + 1;
            },
        }
    }
    proof {
        assert(outcomes@.skip(n as int) =~= Seq::<ProbeOutcome>::empty());
    }
    Err(Error::NotInitialized)
}

/// The extra arguments handed to every invocation of the encryption
/// tool: the configured option string split at ASCII white space, or
/// nothing when no options are configured.
pub open spec fn base_args_spec(opts: Option<String>) -> Seq<Seq<char>> {
    match opts {
        Some(o) => split_ws_spec(o@),
        None => Seq::empty(),
    }
}

/// The argument list for a decrypt invocation: the extra arguments, a
/// flag suppressing interactive key-entry prompts when prompting is
/// disallowed, then the decrypt directive reading from standard input.
pub open spec fn decrypt_args_spec(opts: Option<String>, can_prompt: bool) -> Seq<Seq<char>> {
    base_args_spec(opts) + (if !can_prompt {
        seq!["--pinentry-mode=error"@]
    } else {
        Seq::empty()
    }) + seq!["--decrypt"@, "-"@]
}

/// The argument list for an encrypt invocation: the extra arguments,
/// then the encrypt directive naming the recipient and reading from
/// standard input.
pub open spec fn encrypt_args_spec(opts: Option<String>, recipient: Seq<char>) -> Seq<Seq<char>> {
    base_args_spec(opts) + seq!["--recipient"@, recipient, "--encrypt"@, "-"@]
}

impl PasswordStore {
    /// Builds the store configuration from the root directory, the
    /// optional extra tool arguments and a umask-style octal value; the
    /// permission modes are derived from the umask, and the file mode
    /// never includes an execute bit.
    pub fn new(directory: String, gpg_opts: Option<String>, umask: u32) -> (s: Self)
        ensures
            s.directory == directory,
            s.gpg_opts == gpg_opts,
            s.dir_mode == dir_mode_spec(umask),
            s.file_mode == file_mode_spec(umask),
    {
        PasswordStore {
            directory,
            gpg_opts,
            file_mode: !(umask | 0o111) & 0o777,
            dir_mode: !umask & 0o777,
        }
    }

    /// The backing file of the secret at the given relative path: the
    /// path joined onto the root, with the backing-file suffix appended
    /// if not already present.
    pub fn get_full_secret_path(&self, path: &str) -> (r: String)
        ensures
            r@ == full_secret_path_spec(self.directory@, path@),
    {
        let mut p = join_path(self.directory.as_str(), path);
        if !ends_with_gpg(p.as_str()) {
            let ghost before = p@;
            p.append(".gpg");
            proof {
                reveal_strlit(".gpg");
                assert(p@ =~= before + gpg_suffix());
            }
        }
        p
    }

    /// The candidate marker files for resolving the recipient of `dir`,
    /// nearest directory first, ending at the store root.
    pub fn marker_paths(&self, dir: &str) -> (r: Vec<String>)
        ensures
            r.deep_view() == marker_list(ancestors_spec(dir@, self.directory@)),
    {
        let ghost all = marker_list(ancestors_spec(dir@, self.directory@));
        let mut result: Vec<String> = Vec::new();
        let mut cur: String = String::from_str(dir);
        let mut done = false;
        proof {
            assert(result.deep_view() =~= Seq::<Seq<char>>::empty());
            assert(all =~= result.deep_view() + marker_list(
                ancestors_spec(cur@, self.directory@),
            ));
        }
        while !done
            invariant
                done ==> result.deep_view() == all,
                !done ==> all == result.deep_view() + marker_list(
                    ancestors_spec(cur@, self.directory@),
                ),
            decreases cur@.len() + (if done {
                0int
            } else {
                1int
            }),
        {
            let ghost prev = result.deep_view();
            let m = marker_file_path(cur.as_str());
            result.push(m);
            proof {
                assert(result.deep_view() =~= prev.push(marker_of(cur@)));
            }
            if cur == self.directory || cur.as_str().is_empty() {
                done = true;
                proof {
                    assert(marker_list(ancestors_spec(cur@, self.directory@)) =~= seq![
                        marker_of(cur@),
                    ]);
                    assert(result.deep_view() =~= all);
                }
            } else {
                let next = parent_dir(cur.as_str());
                proof {
                    lemma_parent_shorter(cur@);
                    assert(marker_list(ancestors_spec(cur@, self.directory@)) =~= seq![
                        marker_of(cur@),
                    ] + marker_list(ancestors_spec(next@, self.directory@)));
                    assert(all == result.deep_view() + marker_list(
                        ancestors_spec(next@, self.directory@),
                    ));
                }
                cur = next;
            }
        }
        result
    }

    /// The argument list for a decrypt invocation of the encryption
    /// tool.
    pub fn decrypt_args(&self, can_prompt: bool) -> (r: Vec<String>)
        ensures
            r.deep_view() == decrypt_args_spec(self.gpg_opts, can_prompt),
    {
        let mut r = self.base_tool_args();
        if !can_prompt {
            let ghost prev = r.deep_view();
            r.push(String::from_str("--pinentry-mode=error"));
            proof {
                assert(r.deep_view() =~= prev.push("--pinentry-mode=error"@));
            }
        }
        let ghost mid = r.deep_view();
        r.push(String::from_str("--decrypt"));
        let ghost mid2 = r.deep_view();
        r.push(String::from_str("-"));
        proof {
            assert(mid2 =~= mid.push("--decrypt"@));
            assert(r.deep_view() =~= mid2.push("-"@));
            assert(r.deep_view() =~= decrypt_args_spec(self.gpg_opts, can_prompt));
        }
        r
    }

    /// The argument list for an encrypt invocation of the encryption
    /// tool naming the given recipient.
    pub fn encrypt_args(&self, recipient: &str) -> (r: Vec<String>)
        ensures
            r.deep_view() == encrypt_args_spec(self.gpg_opts, recipient@),
    {
        let mut r = self.base_tool_args();
        let ghost base = r.deep_view();
        r.push(String::from_str("--recipient"));
        let ghost a1 = r.deep_view();
        r.push(String::from_str(recipient));
        let ghost a2 = r.deep_view();
        r.push(String::from_str("--encrypt"));
        let ghost a3 = r.deep_view();
        r.push(String::from_str("-"));
        proof {
            assert(a1 =~= base.push("--recipient"@));
            assert(a2 =~= a1.push(recipient@));
            assert(a3 =~= a2.push("--encrypt"@));
            assert(r.deep_view() =~= a3.push("-"@));
            assert(r.deep_view() =~= encrypt_args_spec(self.gpg_opts, recipient@));
        }
        r
    }

    /// The configured extra tool arguments, split at ASCII white space.
    fn base_tool_args(&self) -> (r: Vec<String>)
        ensures
            r.deep_view() == base_args_spec(self.gpg_opts),
    {
        match &self.gpg_opts {
            Some(o) => split_ascii_ws(o.as_str()),
            None => {
                let v: Vec<String> = Vec::new();
                proof {
                    assert(v.deep_view() =~= Seq::<Seq<char>>::empty());
                }
                v
            },
        }
    }
}

/// The name of the external encryption tool.
pub fn gpg_program() -> (r: String)
    ensures
        r@ == "gpg"@,
{
    String::from_str("gpg")
}

/// Classifies the encryption tool's exit: on success the collected
/// output is the result; on a nonzero exit the operation fails with a
/// tool error carrying the leniently decoded diagnostic text, and no
/// output is handed on.
pub fn tool_outcome(success: bool, stdout: Vec<u8>, stderr: &Vec<u8>) -> (r: Result<Vec<u8>, Error>)
    ensures
        success ==> r == Ok::<Vec<u8>, Error>(stdout),
        !success ==> (r matches Err(Error::GpgError(m)) && m@ == lossy_decode(stderr@)),
{
    if success {
        Ok(stdout)
    } else {
        Err(Error::GpgError(decode_lossy(stderr)))
    }
}

/// Classifies the removal of a secret's backing file: removal of a file
/// that does not exist counts as success, any other failure propagates
/// with its kind preserved.
pub fn delete_outcome(result: Result<(), IoKind>) -> (r: Result<(), Error>)
    ensures
        (match result {
            Ok(_) => r == Ok::<(), Error>(()),
            Err(IoKind::NotFound) => r == Ok::<(), Error>(()),
            Err(k) => r == Err::<(), Error>(Error::IoError(k)),
        }),
{
    match result {
        Ok(_) => Ok(()),
        Err(IoKind::NotFound) => Ok(()),
        Err(k) => Err(Error::IoError(k)),
    }
}

/// The kind of a listed directory entry: a plain file, a directory, or
/// anything else the filesystem may hold.
#[derive(Debug, Clone, Copy, PartialEq, Eq, Structural)]
pub enum EntryKind {
    File,
    Directory,
    Other,
}

/// The kind of an entry from the two flags the filesystem reports.
pub open spec fn kind_spec(is_dir: bool, is_file: bool) -> EntryKind {
    if is_dir {
        EntryKind::Directory
    } else if is_file {
        EntryKind::File
    } else {
        EntryKind::Other
    }
}

/// A directory entry as the filesystem reports it: its two type flags
/// and its name.
#[derive(Debug, Clone)]
pub struct RawEntry {
    pub is_dir: bool,
    pub is_file: bool,
    pub name: String,
}

/// A listed directory entry: its kind and its name.
#[derive(Debug, Clone)]
pub struct Entry {
    pub kind: EntryKind,
    pub name: String,
}

/// Classifies the raw entries of a directory listing: one listed entry
/// per raw entry, in the same order, each with its kind derived from the
/// filesystem's type flags and its name kept as it is.
pub fn list_entries(raw: &Vec<RawEntry>) -> (r: Vec<Entry>)
    ensures
        r@.len() == raw@.len(),
        forall|i: int|
            0 <= i < raw@.len() ==> (#[trigger] r@[i]).kind == kind_spec(
                raw@[i].is_dir,
                raw@[i].is_file,
            ) && r@[i].name == raw@[i].name,
{
    let mut r: Vec<Entry> = Vec::new();
    let mut i: usize = 0;
    while i < raw.len()
        invariant
            i <= raw@.len(),
            r@.len() == i,
            forall|j: int|
                0 <= j < i ==> (#[trigger] r@[j]).kind == kind_spec(
                    raw@[j].is_dir,
                    raw@[j].is_file,
                ) && r@[j].name == raw@[j].name,
        decreases raw@.len() - i,
    {
        let e = &raw[i];
        let kind = if e.is_dir {
            EntryKind::Directory
        } else if e.is_file {
            EntryKind::File
        } else {
            EntryKind::Other
        };
        r.push(Entry { kind, name: e.name.clone() });
        i = i + 1;
    }
    r
}

/// The fallback store root under a home directory.
pub fn default_store_dir(home: &str) -> (r: String)
    ensures
        r@ == join_spec(home@, ".password-store"@),
{
    join_path(home, ".password-store")
}

/// The store root: the explicit override when one is configured, else
/// the fallback under the caller's home directory.
pub fn choose_store_dir(explicit: Option<String>, home: &str) -> (r: String)
    ensures
        (match explicit {
            Some(d) => r == d,
            None => r@ == join_spec(home@, ".password-store"@),
        }),
{
    match explicit {
        Some(d) => d,
        None => default_store_dir(home),
    }
}

/// The umask-style value governing created files and directories: the
/// configured value when one is given, else the default.
pub fn umask_or_default(configured: Option<u32>) -> (r: u32)
    ensures
        (match configured {
            Some(u) => r == u,
            None => r == 0o077,
        }),
{
    match configured {
        Some(u) => u,
        None => 0o077,
    }
}

/// The immutable store configuration: the root directory, the optional
/// extra arguments handed to every invocation of the encryption tool, and
/// the permission modes applied to files and directories the store
/// creates.  Constructed once and never mutated; all mutable state lives
/// on the filesystem.
#[derive(Debug, Clone)]
pub struct PasswordStore {
    /// The root directory of the store.
    pub directory: String,
    /// Extra white-space-separated arguments for the encryption tool.
    pub gpg_opts: Option<String>,
    /// The permission mode for files the store creates.
    pub file_mode: u32,
    /// The permission mode for directories the store creates.
    pub dir_mode: u32,
}

} // verus!
