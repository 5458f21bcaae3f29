//! Read-only repo discovery.
//!
//! For a target file, gather the four governed source roles the code-fix
//! bundle needs, plus the structural `RepoFacts` the code-native payloads
//! are built from. The file system is observed by the caller: this module
//! names what must be looked at (`normalize_target`, `probe_paths`), decides
//! from those observations (`plan_gather`), and builds the sources from the
//! file reads the plan asks for (`gather`).

use vstd::prelude::*;

use crate::clock::{age_minutes, spec_age_minutes, Timestamp};
use crate::error::{ContextError, Result};
use crate::text::{
    chars_of, concat, ends_with, join, join_strings, last_index_of, lemma_rindex_bounds,
    lemma_str_le_total_ordering, prefix, replace_char, replace_chars, rindex, sort_strings,
    sorted, split_at_char, split_chars, str_eq, str_le, str_leq, string_ends_with, string_from_chars,
    to_strings, vec_slice, views,
};

verus! {

/// The role a gathered source plays in the fix.
#[derive(Clone, Copy, Debug, PartialEq, Eq, Structural)]
pub enum SourceRole {
    /// The file under repair.
    Target,
    /// A neighboring file for surrounding context.
    Adjacent,
    /// Canonical repo truth (doc/…SYSTEM.md, README).
    RepoTruth,
    /// How a fix is validated.
    Validation,
}

impl SourceRole {
    pub open spec fn name(self) -> Seq<char> {
        match self {
            SourceRole::Target => "target"@,
            SourceRole::Adjacent => "adjacent"@,
            SourceRole::RepoTruth => "repo_truth"@,
            SourceRole::Validation => "validation"@,
        }
    }

    pub fn as_str(&self) -> (s: &'static str)
        ensures
            s@ == self.name(),
    {
        match self {
            SourceRole::Target => "target",
            SourceRole::Adjacent => "adjacent",
            SourceRole::RepoTruth => "repo_truth",
            SourceRole::Validation => "validation",
        }
    }
}

/// What a path names, following symbolic links (as `Path::is_file`,
/// `Path::is_dir` and `Path::exists` see it).
#[derive(Clone, Copy, Debug, PartialEq, Eq, Structural)]
pub enum PathKind {
    Missing,
    File,
    Dir,
    Other,
}

/// One entry of a directory listing.
#[derive(Clone, Debug)]
pub struct DirEntryInfo {
    /// The entry's file name; `None` when it is not valid UTF-8.
    pub name: Option<String>,
    pub kind: PathKind,
}

/// What the caller observed of the repository.
#[derive(Clone, Debug)]
pub struct RepoListing {
    /// The repo root is a directory.
    pub root_is_dir: bool,
    /// What `root/<normalized target>` is.
    pub target_kind: PathKind,
    /// Listing of the target file's directory; `None` when it cannot be read.
    pub target_dir: Option<Vec<DirEntryInfo>>,
    /// Listing of `root/doc`; `None` when it cannot be read.
    pub doc_dir: Option<Vec<DirEntryInfo>>,
    /// Listing of the repo root; `None` when it cannot be read.
    pub root_dir: Option<Vec<DirEntryInfo>>,
    /// What `root/<p>` is, for each `p` of `probe_paths()`, in order.
    pub probes: Vec<PathKind>,
}

pub struct GatheredSource {
    pub role: SourceRole,
    /// Stable ref used as the bundle's payload ref.
    pub payload_ref: String,
    /// Repo-relative path, when the source is a real file.
    pub rel_path: Option<String>,
    /// The payload content (file text, or a synthesized body for validation).
    pub content: String,
    /// Minutes since the source was last modified, against the assembly clock.
    pub age_minutes: u64,
}

pub struct SourceView {
    pub role: SourceRole,
    pub payload_ref: Seq<char>,
    pub rel_path: Option<Seq<char>>,
    pub content: Seq<char>,
    pub age_minutes: u64,
}

pub open spec fn opt_view(o: Option<String>) -> Option<Seq<char>> {
    match o {
        Some(s) => Some(s@),
        None => None,
    }
}

impl View for GatheredSource {
    type V = SourceView;

    open spec fn view(&self) -> SourceView {
        SourceView {
            role: self.role,
            payload_ref: self.payload_ref@,
            rel_path: opt_view(self.rel_path),
            content: self.content@,
            age_minutes: self.age_minutes,
        }
    }
}

/// The detected toolchain family of a repo.
#[derive(Clone, Copy, Debug, PartialEq, Eq, Structural)]
pub enum Stack {
    Rust,
    Python,
    Node,
    Generic,
}

/// Deterministic structural facts about the repo.
pub struct RepoFacts {
    pub stack: &'static str,
    pub primary_directories: Vec<String>,
    pub entry_points: Vec<String>,
    pub canonical_docs: Vec<String>,
    pub build_test_commands: Vec<String>,
    pub validation_commands: Vec<String>,
    pub validation_execution_order: Vec<String>,
    pub validation_pass_conditions: Vec<String>,
    pub validation_env_requirements: Vec<String>,
}

pub struct FactsView {
    pub stack: Seq<char>,
    pub primary_directories: Seq<Seq<char>>,
    pub entry_points: Seq<Seq<char>>,
    pub canonical_docs: Seq<Seq<char>>,
    pub build_test_commands: Seq<Seq<char>>,
    pub validation_commands: Seq<Seq<char>>,
    pub validation_execution_order: Seq<Seq<char>>,
    pub validation_pass_conditions: Seq<Seq<char>>,
    pub validation_env_requirements: Seq<Seq<char>>,
}

impl View for RepoFacts {
    type V = FactsView;

    open spec fn view(&self) -> FactsView {
        FactsView {
            stack: self.stack@,
            primary_directories: views(self.primary_directories@),
            entry_points: views(self.entry_points@),
            canonical_docs: views(self.canonical_docs@),
            build_test_commands: views(self.build_test_commands@),
            validation_commands: views(self.validation_commands@),
            validation_execution_order: views(self.validation_execution_order@),
            validation_pass_conditions: views(self.validation_pass_conditions@),
            validation_env_requirements: views(self.validation_env_requirements@),
        }
    }
}

/// The decisions taken from a `RepoListing`: which files to read and the
/// repo facts.
pub struct GatherPlan {
    pub target_rel: String,
    /// The adjacent file's name in the target's directory.
    pub adjacent_name: Option<String>,
    /// The adjacent file's repo-relative path.
    pub adjacent_rel: Option<String>,
    pub canonical_doc: Option<String>,
    pub facts: RepoFacts,
}

/// A file's text and modification time.
pub struct FileText {
    pub content: String,
    pub mtime: Timestamp,
}

/// The outcome of reading one file: its text, or the I/O error message
/// (`"<path>: <error>"`).
pub type FileRead = std::result::Result<FileText, String>;

/// The reads a plan asks for.
pub struct GatherReads {
    pub target: FileRead,
    pub adjacent: Option<FileRead>,
    pub doc: Option<FileRead>,
}

pub struct GatherResult {
    pub repo_id: String,
    pub repo_root: String,
    pub target_rel: String,
    pub facts: RepoFacts,
    pub sources: Vec<GatheredSource>,
}

// ---------------------------------------------------------------------
// Paths and names

/// `t` without its leading `'/'`s (`trim_start_matches('/')`).
pub open spec fn strip_leading_slashes(t: Seq<char>) -> Seq<char>
    decreases t.len(),
{
    if t.len() > 0 && t[0] == '/' {
        strip_leading_slashes(t.drop_first())
    } else {
        t
    }
}

/// Removes the leading `'/'`s of a requested target path.
pub fn normalize_target(target_file: &str) -> (r: String)
    ensures
        r@ == strip_leading_slashes(target_file@),
{
    let v = chars_of(target_file);
    let mut i: usize = 0;
    assert(v@.skip(0) =~= v@);
    while i < v.len() && v[i] == '/'
        invariant
            v@ == target_file@,
            i <= v.len(),
            strip_leading_slashes(v@) == strip_leading_slashes(v@.skip(i as int)),
        decreases v.len() - i,
    {
        assert(v@.skip(i as int).drop_first() =~= v@.skip(i + 1));
        i = i + 1;
    }
    proof {
        assert(v@.skip(0) =~= v@);
        if i < v.len() {
            assert(v@.skip(i as int)[0] != '/');
        }
        assert(v@.skip(i as int) =~= v@.subrange(i as int, v.len() as int));
    }
    string_from_chars(vec_slice(&v, i, v.len()).as_slice())
}

/// The file name of a repo-relative file path: the text after its last `'/'`.
pub open spec fn file_name_of(t: Seq<char>) -> Seq<char> {
    t.skip(rindex(t, '/') + 1)
}

/// The extension `Path::extension` gives for a file name (empty when it
/// has none): the text after the last `'.'`, unless that dot starts the name.
pub open spec fn extension_of(name: Seq<char>) -> Seq<char> {
    let i = rindex(name, '.');
    if i <= 0 {
        Seq::empty()
    } else {
        name.skip(i + 1)
    }
}

/// A path segment that `Path` drops at either end of a path (empty or `.`).
pub open spec fn is_skipped_segment(seg: Seq<char>) -> bool {
    seg.len() == 0 || seg == seq!['.']
}

pub open spec fn trim_segments_front(s: Seq<Seq<char>>) -> Seq<Seq<char>>
    decreases s.len(),
{
    if s.len() > 0 && is_skipped_segment(s[0]) {
        trim_segments_front(s.drop_first())
    } else {
        s
    }
}

pub open spec fn trim_segments_back(s: Seq<Seq<char>>) -> Seq<Seq<char>>
    decreases s.len(),
{
    if s.len() > 0 && is_skipped_segment(s.last()) {
        trim_segments_back(s.drop_last())
    } else {
        s
    }
}

/// The directory of the target relative to the repo root, as
/// `root.join(t).parent()` with the root stripped off shows it.
pub open spec fn parent_rel(t: Seq<char>) -> Seq<char> {
    let i = rindex(t, '/');
    let raw = if i < 0 {
        Seq::<char>::empty()
    } else {
        t.take(i)
    };
    join(trim_segments_back(trim_segments_front(split_at_char(raw, '/'))), seq!['/'])
}

/// The repo-relative path of the adjacent file `name`, with backslashes
/// turned into forward slashes.
pub open spec fn adjacent_rel_of(t: Seq<char>, name: Seq<char>) -> Seq<char> {
    let p = parent_rel(t);
    replace_char(
        if p.len() == 0 {
            name
        } else {
            p + seq!['/'] + name
        },
        '\\',
        '/',
    )
}

/// `file://<repo>/<rel>`: the ref of a repo file.
pub open spec fn file_ref_of(repo_id: Seq<char>, rel: Seq<char>) -> Seq<char> {
    "file://"@ + repo_id + seq!['/'] + rel
}

pub fn file_ref(repo_id: &str, rel: &str) -> (r: String)
    ensures
        r@ == file_ref_of(repo_id@, rel@),
{
    let mut r = "file://".to_owned();
    r.append(repo_id);
    r.append("/");
    r.append(rel);
    proof {
        reveal_strlit("/");
    }
    r
}

} // verus!

verus! {

/// The file name of a repo-relative file path.
pub fn file_name(t: &str) -> (r: String)
    ensures
        r@ == file_name_of(t@),
{
    let v = chars_of(t);
    proof {
        lemma_rindex_bounds(v@, '/');
    }
    let start: usize = match last_index_of(&v, '/') {
        Some(i) => i + 1,
        None => 0,
    };
    assert(v@.skip(start as int) =~= v@.subrange(start as int, v.len() as int));
    string_from_chars(vec_slice(&v, start, v.len()).as_slice())
}

/// The extension of a file name (empty when it has none).
pub fn extension(name: &str) -> (r: String)
    ensures
        r@ == extension_of(name@),
{
    let v = chars_of(name);
    proof {
        lemma_rindex_bounds(v@, '.');
    }
    match last_index_of(&v, '.') {
        Some(i) => {
            if i == 0 {
                String::new()
            } else {
                assert(v@.skip(i + 1) =~= v@.subrange(i + 1, v.len() as int));
                string_from_chars(vec_slice(&v, i + 1, v.len()).as_slice())
            }
        },
        None => String::new(),
    }
}

fn is_skipped(seg: &String) -> (r: bool)
    ensures
        r == is_skipped_segment(seg@),
{
    let v = chars_of(seg.as_str());
    let r = v.len() == 0 || (v.len() == 1 && v[0] == '.');
    proof {
        if v.len() == 1 && v[0] == '.' {
            assert(seg@ =~= seq!['.']);
        }
        if seg@ == seq!['.'] {
            assert(v@[0] == '.');
        }
    }
    r
}

proof fn lemma_trim_front_skip(s: Seq<Seq<char>>, i: int)
    requires
        0 <= i <= s.len(),
        forall|k: int| 0 <= k < i ==> is_skipped_segment(#[trigger] s[k]),
    ensures
        trim_segments_front(s) == trim_segments_front(s.skip(i)),
    decreases i,
{
    if i > 0 {
        lemma_trim_front_skip(s.drop_first(), i - 1);
        assert(s.drop_first().skip(i - 1) =~= s.skip(i));
    } else {
        assert(s.skip(0) =~= s);
    }
}

proof fn lemma_trim_back_take(s: Seq<Seq<char>>, j: int)
    requires
        0 <= j <= s.len(),
        forall|k: int| j <= k < s.len() ==> is_skipped_segment(#[trigger] s[k]),
    ensures
        trim_segments_back(s) == trim_segments_back(s.take(j)),
    decreases s.len() - j,
{
    if j < s.len() {
        lemma_trim_back_take(s.drop_last(), j);
        assert(s.drop_last().take(j) =~= s.take(j));
    } else {
        assert(s.take(j) =~= s);
    }
}

/// The target's directory relative to the repo root (see `parent_rel`).
pub fn parent_dir(t: &str) -> (r: String)
    ensures
        r@ == parent_rel(t@),
{
    let v = chars_of(t);
    proof {
        lemma_rindex_bounds(v@, '/');
    }
    let raw: Vec<char> = match last_index_of(&v, '/') {
        Some(i) => vec_slice(&v, 0, i),
        None => Vec::new(),
    };
    proof {
        if rindex(v@, '/') >= 0 {
            assert(v@.take(rindex(v@, '/')) =~= raw@);
        } else {
            assert(raw@ =~= Seq::<char>::empty());
        }
    }
    let segs = split_chars(&raw, '/');
    let ghost s = views(segs@);
    let mut i: usize = 0;
    while i < segs.len() && is_skipped(&segs[i])
        invariant
            s == views(segs@),
            i <= segs.len(),
            forall|k: int| 0 <= k < i ==> is_skipped_segment(#[trigger] s[k]),
        decreases segs.len() - i,
    {
        i = i + 1;
    }
    proof {
        lemma_trim_front_skip(s, i as int);
    }
    let ghost f = s.skip(i as int);
    let mut j: usize = segs.len();
    while j > i && is_skipped(&segs[j - 1])
        invariant
            s == views(segs@),
            i <= j <= segs.len(),
            forall|k: int| j <= k < s.len() ==> is_skipped_segment(#[trigger] s[k]),
        decreases j,
    {
        j = j - 1;
    }
    let mut kept: Vec<String> = Vec::new();
    let mut k: usize = i;
    while k < j
        invariant
            s == views(segs@),
            i <= k <= j <= segs.len(),
            views(kept@) == s.subrange(i as int, k as int),
        decreases j - k,
    {
        let ghost old_kept = kept@;
        kept.push(segs[k].clone());
        proof {
            assert(views(kept@) =~= views(old_kept).push(s[k as int]));
            assert(s.subrange(i as int, k + 1) =~= s.subrange(i as int, k as int).push(s[k as int]));
        }
        k = k + 1;
    }
    proof {
        if i < segs.len() {
            assert(!is_skipped_segment(f[0]));
        }
        assert(trim_segments_front(s) == f);
        assert forall|q: int| (j - i) <= q < f.len() implies is_skipped_segment(#[trigger] f[q]) by {
            assert(f[q] == s[i + q]);
        }
        lemma_trim_back_take(f, j - i);
        assert(f.take(j - i) =~= views(kept@));
        if j > i {
            assert(!is_skipped_segment(views(kept@).last()));
        }
        assert(trim_segments_back(views(kept@)) == views(kept@));
    }
    let r = join_strings(&kept, "/");
    proof {
        reveal_strlit("/");
        assert("/"@ =~= seq!['/']);
    }
    r
}

/// Whether a directory entry qualifies as the adjacent file of target `t`:
/// a regular file with a UTF-8 name other than the target's, with the
/// target's extension.
pub open spec fn adjacent_eligible(e: DirEntryInfo, t: Seq<char>) -> bool {
    &&& e.kind == PathKind::File
    &&& e.name is Some
    &&& e.name->0@ != file_name_of(t)
    &&& extension_of(e.name->0@) == extension_of(file_name_of(t))
}

/// Names of the entries that qualify as the adjacent file, in listing order.
pub open spec fn adjacent_candidates(es: Seq<DirEntryInfo>, t: Seq<char>) -> Seq<Seq<char>>
    decreases es.len(),
{
    if es.len() == 0 {
        Seq::empty()
    } else {
        let prev = adjacent_candidates(es.drop_last(), t);
        if adjacent_eligible(es.last(), t) {
            prev.push(es.last().name->0@)
        } else {
            prev
        }
    }
}

/// The name of the adjacent file: of the qualifying names in the target's
/// directory, the first in lexicographic order.
pub open spec fn spec_adjacent_name(t: Seq<char>, listing: Option<Vec<DirEntryInfo>>) -> Option<Seq<char>> {
    match listing {
        None => None,
        Some(es) => {
            let c = adjacent_candidates(es@, t);
            if c.len() == 0 {
                None
            } else {
                Some(sorted(c)[0])
            }
        },
    }
}

/// The repo-relative path of the adjacent file, if there is one.
pub open spec fn spec_adjacent(t: Seq<char>, listing: Option<Vec<DirEntryInfo>>) -> Option<Seq<char>> {
    match spec_adjacent_name(t, listing) {
        None => None,
        Some(n) => Some(adjacent_rel_of(t, n)),
    }
}

/// Picks the name of the adjacent file of target `t` from its directory's
/// listing.
pub fn choose_adjacent(t: &str, listing: &Option<Vec<DirEntryInfo>>) -> (r: Option<String>)
    ensures
        opt_view(r) == spec_adjacent_name(t@, *listing),
{
    let es = match listing {
        None => {
            return None;
        },
        Some(es) => es,
    };
    let target_name = file_name(t);
    let target_ext = extension(target_name.as_str());
    let mut cands: Vec<String> = Vec::new();
    let mut i: usize = 0;
    while i < es.len()
        invariant
            i <= es.len(),
            target_name@ == file_name_of(t@),
            target_ext@ == extension_of(file_name_of(t@)),
            views(cands@) == adjacent_candidates(es@.take(i as int), t@),
        decreases es.len() - i,
    {
        let e = &es[i];
        proof {
            assert(es@.take(i + 1).drop_last() =~= es@.take(i as int));
            assert(es@.take(i + 1).last() == es@[i as int]);
        }
        if e.kind == PathKind::File {
            match &e.name {
                Some(n) => {
                    if !(*n == target_name) {
                        let ext = extension(n.as_str());
                        if ext == target_ext {
                            let ghost old_c = cands@;
                            cands.push(n.clone());
                            assert(views(cands@) =~= views(old_c).push(n@));
                        }
                    }
                },
                None => {},
            }
        }
        i = i + 1;
    }
    assert(es@.take(es.len() as int) =~= es@);
    if cands.len() == 0 {
        return None;
    }
    let sorted_c = sort_strings(&cands);
    proof {
        broadcast use vstd::seq_lib::group_to_multiset_ensures;
        lemma_str_le_total_ordering();
        views(cands@).lemma_sort_by_ensures(str_leq());
        assert(views(cands@).len() == views(cands@).to_multiset().len());
        assert(sorted(views(cands@)).len() == sorted(views(cands@)).to_multiset().len());
        assert(views(sorted_c@)[0] == sorted_c@[0]@);
    }
    Some(sorted_c[0].clone())
}

/// The repo-relative path of adjacent file `name` of target `t`.
pub fn adjacent_path(t: &str, name: &String) -> (r: String)
    ensures
        r@ == adjacent_rel_of(t@, name@),
{
    let p = parent_dir(t);
    let joined = if p.as_str().is_empty() {
        name.clone()
    } else {
        let mut j = p.clone();
        j.append("/");
        j.append(name.as_str());
        proof {
            reveal_strlit("/");
            assert(j@ =~= p@ + seq!['/'] + name@);
        }
        j
    };
    replace_chars(joined.as_str(), '\\', '/')
}

} // verus!

verus! {

// ---------------------------------------------------------------------
// Probes, canonical doc, top-level directories

/// Repo-relative paths whose kind the caller reports in
/// `RepoListing::probes`, in this order.
pub open spec fn spec_probe_paths() -> Seq<Seq<char>> {
    seq![
        "Cargo.toml"@,
        "pyproject.toml"@,
        "requirements.txt"@,
        "setup.py"@,
        "package.json"@,
        "tsconfig.json"@,
        "app"@,
        "src"@,
        "main.py"@,
        "app/__init__.py"@,
        "src/main.rs"@,
        "src/lib.rs"@,
        "SYSTEM.md"@,
        "README.md"@,
        "readme.md"@,
        "Readme.md"@,
    ]
}

pub const PROBE_COUNT: usize = 16;

/// The paths to probe under the repo root.
pub fn probe_paths() -> (r: Vec<String>)
    ensures
        views(r@) == spec_probe_paths(),
        r@.len() == PROBE_COUNT,
{
    let r = to_strings(
        &[
            "Cargo.toml",
            "pyproject.toml",
            "requirements.txt",
            "setup.py",
            "package.json",
            "tsconfig.json",
            "app",
            "src",
            "main.py",
            "app/__init__.py",
            "src/main.rs",
            "src/lib.rs",
            "SYSTEM.md",
            "README.md",
            "readme.md",
            "Readme.md",
        ],
    );
    assert(views(r@) =~= spec_probe_paths());
    r
}

/// `root/<probe i>` exists.
pub open spec fn has(probes: Seq<PathKind>, i: int) -> bool {
    probes[i] != PathKind::Missing
}

/// `root/<probe i>` is a regular file.
pub open spec fn is_file_at(probes: Seq<PathKind>, i: int) -> bool {
    probes[i] == PathKind::File
}

/// Names in a `doc/` listing that end in `SYSTEM.md`, in listing order.
pub open spec fn doc_candidates(es: Seq<DirEntryInfo>) -> Seq<Seq<char>>
    decreases es.len(),
{
    if es.len() == 0 {
        Seq::empty()
    } else {
        let prev = doc_candidates(es.drop_last());
        let e = es.last();
        if e.name is Some && ends_with(e.name->0@, "SYSTEM.md"@) {
            prev.push(e.name->0@)
        } else {
            prev
        }
    }
}

/// The canonical repo-truth doc: the first `doc/*SYSTEM.md` in
/// lexicographic order; else the first of `SYSTEM.md`, `README.md`,
/// `readme.md`, `Readme.md` that is a file at the root.
pub open spec fn spec_canonical_doc(doc_dir: Option<Vec<DirEntryInfo>>, probes: Seq<PathKind>) -> Option<Seq<char>> {
    let hits = match doc_dir {
        Some(es) => doc_candidates(es@),
        None => Seq::empty(),
    };
    if hits.len() > 0 {
        Some("doc/"@ + sorted(hits)[0])
    } else if is_file_at(probes, 12) {
        Some("SYSTEM.md"@)
    } else if is_file_at(probes, 13) {
        Some("README.md"@)
    } else if is_file_at(probes, 14) {
        Some("readme.md"@)
    } else if is_file_at(probes, 15) {
        Some("Readme.md"@)
    } else {
        None
    }
}

/// Picks the canonical repo-truth doc.
pub fn choose_canonical_doc(doc_dir: &Option<Vec<DirEntryInfo>>, probes: &Vec<PathKind>) -> (r: Option<String>)
    requires
        probes@.len() == PROBE_COUNT,
    ensures
        opt_view(r) == spec_canonical_doc(*doc_dir, probes@),
{
    let mut hits: Vec<String> = Vec::new();
    match doc_dir {
        Some(es) => {
            let mut i: usize = 0;
            while i < es.len()
                invariant
                    i <= es.len(),
                    views(hits@) == doc_candidates(es@.take(i as int)),
                decreases es.len() - i,
            {
                proof {
                    assert(es@.take(i + 1).drop_last() =~= es@.take(i as int));
                    assert(es@.take(i + 1).last() == es@[i as int]);
                }
                match &es[i].name {
                    Some(n) => {
                        if string_ends_with(n.as_str(), "SYSTEM.md") {
                            let ghost old_h = hits@;
                            hits.push(n.clone());
                            assert(views(hits@) =~= views(old_h).push(n@));
                        }
                    },
                    None => {},
                }
                i = i + 1;
            }
            assert(es@.take(es.len() as int) =~= es@);
        },
        None => {},
    }
    if hits.len() > 0 {
        let s = sort_strings(&hits);
        proof {
            broadcast use vstd::seq_lib::group_to_multiset_ensures;
            lemma_str_le_total_ordering();
            views(hits@).lemma_sort_by_ensures(str_leq());
            assert(views(hits@).len() == views(hits@).to_multiset().len());
            assert(sorted(views(hits@)).len() == sorted(views(hits@)).to_multiset().len());
            assert(views(s@)[0] == s@[0]@);
        }
        return Some(concat("doc/", s[0].as_str()));
    }
    if probes[12] == PathKind::File {
        Some("SYSTEM.md".to_owned())
    } else if probes[13] == PathKind::File {
        Some("README.md".to_owned())
    } else if probes[14] == PathKind::File {
        Some("readme.md".to_owned())
    } else if probes[15] == PathKind::File {
        Some("Readme.md".to_owned())
    } else {
        None
    }
}

/// Directory names never listed as primary directories.
pub open spec fn skip_dirs() -> Seq<Seq<char>> {
    seq![
        ".git"@,
        "target"@,
        "node_modules"@,
        "__pycache__"@,
        ".venv"@,
        "venv"@,
        "dist"@,
        "build"@,
        ".mypy_cache"@,
        ".pytest_cache"@,
        ".ruff_cache"@,
    ]
}

/// A root entry listed as a primary directory: a directory with a UTF-8
/// name that is not hidden and not a build or tooling directory.
pub open spec fn top_eligible(e: DirEntryInfo) -> bool {
    &&& e.kind == PathKind::Dir
    &&& e.name is Some
    &&& !(e.name->0@.len() > 0 && e.name->0@[0] == '.')
    &&& !skip_dirs().contains(e.name->0@)
}

pub open spec fn top_candidates(es: Seq<DirEntryInfo>) -> Seq<Seq<char>>
    decreases es.len(),
{
    if es.len() == 0 {
        Seq::empty()
    } else {
        let prev = top_candidates(es.drop_last());
        if top_eligible(es.last()) {
            prev.push(es.last().name->0@)
        } else {
            prev
        }
    }
}

/// At most 12 primary directories, the first in lexicographic order.
pub open spec fn spec_top_level_dirs(root_dir: Option<Vec<DirEntryInfo>>) -> Seq<Seq<char>> {
    match root_dir {
        None => Seq::empty(),
        Some(es) => prefix(sorted(top_candidates(es@)), 12),
    }
}

fn is_skip_dir(name: &str) -> (r: bool)
    ensures
        r == skip_dirs().contains(name@),
{
    let list = [
        ".git",
        "target",
        "node_modules",
        "__pycache__",
        ".venv",
        "venv",
        "dist",
        "build",
        ".mypy_cache",
        ".pytest_cache",
        ".ruff_cache",
    ];
    let ghost l = list@.map_values(|s: &str| s@);
    assert(l =~= skip_dirs());
    let mut i: usize = 0;
    while i < 11
        invariant
            i <= 11,
            l == list@.map_values(|s: &str| s@),
            l == skip_dirs(),
            l.len() == 11,
            forall|k: int| 0 <= k < i ==> l[k] != name@,
        decreases 11 - i,
    {
        if str_eq(name, list[i]) {
            assert(l[i as int] == name@);
            assert(skip_dirs()[i as int] == name@);
            return true;
        }
        i = i + 1;
    }
    false
}

/// The top-level directories of the repo, sorted, at most 12.
pub fn top_level_dirs(root_dir: &Option<Vec<DirEntryInfo>>) -> (r: Vec<String>)
    ensures
        views(r@) == spec_top_level_dirs(*root_dir),
{
    let es = match root_dir {
        None => {
            let r: Vec<String> = Vec::new();
            assert(views(r@) =~= Seq::<Seq<char>>::empty());
            return r;
        },
        Some(es) => es,
    };
    let mut dirs: Vec<String> = Vec::new();
    let mut i: usize = 0;
    while i < es.len()
        invariant
            i <= es.len(),
            views(dirs@) == top_candidates(es@.take(i as int)),
        decreases es.len() - i,
    {
        proof {
            assert(es@.take(i + 1).drop_last() =~= es@.take(i as int));
            assert(es@.take(i + 1).last() == es@[i as int]);
        }
        if es[i].kind == PathKind::Dir {
            match &es[i].name {
                Some(n) => {
                    let c = chars_of(n.as_str());
                    let hidden = c.len() > 0 && c[0] == '.';
                    if !hidden && !is_skip_dir(n.as_str()) {
                        let ghost old_d = dirs@;
                        dirs.push(n.clone());
                        assert(views(dirs@) =~= views(old_d).push(n@));
                    }
                },
                None => {},
            }
        }
        i = i + 1;
    }
    assert(es@.take(es.len() as int) =~= es@);
    let mut s = sort_strings(&dirs);
    let ghost before = s@;
    s.truncate(12);
    proof {
        if 12 < views(before).len() {
            assert(views(s@) =~= views(before).take(12));
        } else {
            assert(views(s@) =~= views(before));
        }
    }
    s
}

} // verus!

verus! {

// ---------------------------------------------------------------------
// Repo facts

/// The toolchain family: Rust when `Cargo.toml` exists or the target is a
/// `.rs` file; else Python when a Python project file exists or the target
/// is a `.py` file; else Node when `package.json` or `tsconfig.json` exists.
pub open spec fn spec_stack(t: Seq<char>, probes: Seq<PathKind>) -> Stack {
    if has(probes, 0) || ends_with(t, ".rs"@) {
        Stack::Rust
    } else if has(probes, 1) || has(probes, 2) || has(probes, 3) || ends_with(t, ".py"@) {
        Stack::Python
    } else if has(probes, 4) || has(probes, 5) {
        Stack::Node
    } else {
        Stack::Generic
    }
}

pub open spec fn stack_name(s: Stack) -> Seq<char> {
    match s {
        Stack::Rust => "rust"@,
        Stack::Python => "python"@,
        Stack::Node => "node"@,
        Stack::Generic => "generic"@,
    }
}

pub open spec fn base_entry_points(s: Stack) -> Seq<Seq<char>> {
    match s {
        Stack::Rust => seq!["Cargo.toml"@],
        Stack::Python => Seq::empty(),
        Stack::Node => seq!["package.json"@],
        Stack::Generic => Seq::empty(),
    }
}

pub open spec fn build_test_commands(s: Stack) -> Seq<Seq<char>> {
    match s {
        Stack::Rust => seq!["cargo build"@, "cargo test"@],
        Stack::Python => seq!["python -m pytest"@],
        Stack::Node => seq!["npm test"@],
        Stack::Generic => seq!["<repo build command>"@],
    }
}

pub open spec fn validation_commands(s: Stack) -> Seq<Seq<char>> {
    match s {
        Stack::Rust => seq!["cargo fmt --check"@, "cargo clippy"@, "cargo test"@],
        Stack::Python => seq!["ruff check ."@, "python -m pytest"@],
        Stack::Node => seq!["npm run lint"@, "npm test"@],
        Stack::Generic => seq!["<repo verification command>"@],
    }
}

pub open spec fn validation_execution_order(s: Stack) -> Seq<Seq<char>> {
    match s {
        Stack::Rust => seq!["fmt"@, "clippy"@, "test"@],
        Stack::Python => seq!["lint"@, "test"@],
        Stack::Node => seq!["lint"@, "test"@],
        Stack::Generic => seq!["verify"@],
    }
}

pub open spec fn validation_pass_conditions(s: Stack) -> Seq<Seq<char>> {
    match s {
        Stack::Rust => seq!["clippy reports no warnings"@, "all tests pass"@],
        Stack::Python => seq!["ruff reports no errors"@, "pytest exits 0"@],
        Stack::Node => seq!["lint passes"@, "tests pass"@],
        Stack::Generic => seq!["verification command exits 0"@],
    }
}

pub open spec fn validation_env_requirements(s: Stack) -> Seq<Seq<char>> {
    match s {
        Stack::Rust => seq!["rust toolchain (cargo) on PATH"@],
        Stack::Python => seq!["python 3.11+ with project venv"@],
        Stack::Node => seq!["node + npm on PATH"@],
        Stack::Generic => seq!["repo toolchain available"@],
    }
}

/// The entries of `names` whose flag is set, in order.
pub open spec fn present(names: Seq<Seq<char>>, flags: Seq<bool>) -> Seq<Seq<char>>
    decreases names.len(),
{
    if names.len() == 0 || flags.len() == 0 {
        Seq::empty()
    } else {
        let prev = present(names.drop_last(), flags.drop_last());
        if flags.last() {
            prev.push(names.last())
        } else {
            prev
        }
    }
}

/// Entry points looked for in every stack (probes 6 to 11).
pub open spec fn discovered_entry_points(probes: Seq<PathKind>) -> Seq<Seq<char>> {
    present(
        spec_probe_paths().subrange(6, 12),
        seq![
            has(probes, 6),
            has(probes, 7),
            has(probes, 8),
            has(probes, 9),
            has(probes, 10),
            has(probes, 11),
        ],
    )
}

/// `s` with each run of equal neighbours reduced to one element (`Vec::dedup`).
pub open spec fn dedup(s: Seq<Seq<char>>) -> Seq<Seq<char>>
    decreases s.len(),
{
    if s.len() <= 1 {
        s
    } else {
        let p = dedup(s.drop_last());
        if s.last() == s[s.len() - 2] {
            p
        } else {
            p.push(s.last())
        }
    }
}

/// The stack's entry points and those found at the root, sorted and
/// deduplicated; the target itself when there are none.
pub open spec fn spec_entry_points(t: Seq<char>, probes: Seq<PathKind>) -> Seq<Seq<char>> {
    let e = dedup(sorted(base_entry_points(spec_stack(t, probes)) + discovered_entry_points(probes)));
    if e.len() == 0 {
        seq![t]
    } else {
        e
    }
}

/// All the repo facts for target `t`, canonical doc `doc` and the listing.
pub open spec fn spec_facts(t: Seq<char>, doc: Option<Seq<char>>, listing: RepoListing) -> FactsView {
    let stack = spec_stack(t, listing.probes@);
    let dirs = spec_top_level_dirs(listing.root_dir);
    FactsView {
        stack: stack_name(stack),
        primary_directories: if dirs.len() == 0 {
            seq!["."@]
        } else {
            dirs
        },
        entry_points: spec_entry_points(t, listing.probes@),
        canonical_docs: match doc {
            Some(d) => seq![d],
            None => seq!["(no canonical doc found)"@],
        },
        build_test_commands: build_test_commands(stack),
        validation_commands: validation_commands(stack),
        validation_execution_order: validation_execution_order(stack),
        validation_pass_conditions: validation_pass_conditions(stack),
        validation_env_requirements: validation_env_requirements(stack),
    }
}

fn detect_stack(t: &str, probes: &Vec<PathKind>) -> (s: Stack)
    requires
        probes@.len() == PROBE_COUNT,
    ensures
        s == spec_stack(t@, probes@),
{
    let has0 = probes[0] != PathKind::Missing;
    if has0 || string_ends_with(t, ".rs") {
        Stack::Rust
    } else if probes[1] != PathKind::Missing || probes[2] != PathKind::Missing || probes[3]
        != PathKind::Missing || string_ends_with(t, ".py") {
        Stack::Python
    } else if probes[4] != PathKind::Missing || probes[5] != PathKind::Missing {
        Stack::Node
    } else {
        Stack::Generic
    }
}

fn dedup_strings(v: &Vec<String>) -> (r: Vec<String>)
    ensures
        views(r@) == dedup(views(v@)),
{
    let mut r: Vec<String> = Vec::new();
    let mut i: usize = 0;
    while i < v.len()
        invariant
            i <= v.len(),
            views(r@) == dedup(views(v@).take(i as int)),
            i > 0 ==> views(r@).len() > 0 && views(r@).last() == views(v@)[i - 1],
        decreases v.len() - i,
    {
        let ghost vv = views(v@);
        let ghost old_r = r@;
        proof {
            assert(vv.take(i + 1).drop_last() =~= vv.take(i as int));
            assert(vv.take(i + 1).last() == vv[i as int]);
            if i > 0 {
                assert(vv.take(i + 1)[i - 1] == vv[i - 1]);
            }
        }
        if i == 0 || !(v[i] == v[i - 1]) {
            r.push(v[i].clone());
            proof {
                assert(views(r@) =~= views(old_r).push(vv[i as int]));
                if i == 0 {
                    assert(vv.take(1) =~= seq![vv[0]]);
                }
            }
        }
        i = i + 1;
    }
    assert(views(v@).take(v.len() as int) =~= views(v@));
    r
}

/// The entry points of the repo (see `spec_entry_points`).
fn entry_points(t: &str, stack: Stack, probes: &Vec<PathKind>) -> (r: Vec<String>)
    requires
        probes@.len() == PROBE_COUNT,
        stack == spec_stack(t@, probes@),
    ensures
        views(r@) == spec_entry_points(t@, probes@),
{
    let mut e: Vec<String> = match stack {
        Stack::Rust => to_strings(&["Cargo.toml"]),
        Stack::Node => to_strings(&["package.json"]),
        _ => Vec::new(),
    };
    proof {
        assert(views(e@) =~= base_entry_points(stack));
    }
    let names = ["app", "src", "main.py", "app/__init__.py", "src/main.rs", "src/lib.rs"];
    let ghost nv = names@.map_values(|s: &str| s@);
    let ghost flags = seq![
        has(probes@, 6),
        has(probes@, 7),
        has(probes@, 8),
        has(probes@, 9),
        has(probes@, 10),
        has(probes@, 11),
    ];
    assert(nv =~= spec_probe_paths().subrange(6, 12));
    let ghost base = views(e@);
    let mut k: usize = 0;
    while k < 6
        invariant
            k <= 6,
            probes@.len() == PROBE_COUNT,
            nv == names@.map_values(|s: &str| s@),
            nv.len() == 6,
            flags == seq![
                has(probes@, 6),
                has(probes@, 7),
                has(probes@, 8),
                has(probes@, 9),
                has(probes@, 10),
                has(probes@, 11),
            ],
            views(e@) == base + present(nv.take(k as int), flags.take(k as int)),
        decreases 6 - k,
    {
        proof {
            assert(nv.take(k + 1).drop_last() =~= nv.take(k as int));
            assert(flags.take(k + 1).drop_last() =~= flags.take(k as int));
            assert(flags.take(k + 1).last() == flags[k as int]);
            assert(flags[k as int] == has(probes@, 6 + k));
        }
        if probes[6 + k] != PathKind::Missing {
            let ghost old_e = e@;
            e.push(names[k].to_owned());
            assert(views(e@) =~= views(old_e).push(nv[k as int]));
        }
        k = k + 1;
    }
    proof {
        assert(nv.take(6) =~= nv);
        assert(flags.take(6) =~= flags);
    }
    let s = sort_strings(&e);
    let d = dedup_strings(&s);
    if d.len() == 0 {
        let r = to_strings(&[t]);
        assert(views(r@) =~= seq![t@]);
        r
    } else {
        d
    }
}

/// Detects the structural facts of the repo.
pub fn detect_repo_facts(t: &str, canonical_doc: &Option<String>, listing: &RepoListing) -> (f: RepoFacts)
    requires
        listing.probes@.len() == PROBE_COUNT,
    ensures
        f@ == spec_facts(t@, opt_view(*canonical_doc), *listing),
{
    let probes = &listing.probes;
    let stack = detect_stack(t, probes);
    let (name, build, cmds, order, pass, env): (&'static str, Vec<String>, Vec<String>, Vec<String>, Vec<String>, Vec<String>) = match stack {
        Stack::Rust => (
            "rust",
            to_strings(&["cargo build", "cargo test"]),
            to_strings(&["cargo fmt --check", "cargo clippy", "cargo test"]),
            to_strings(&["fmt", "clippy", "test"]),
            to_strings(&["clippy reports no warnings", "all tests pass"]),
            to_strings(&["rust toolchain (cargo) on PATH"]),
        ),
        Stack::Python => (
            "python",
            to_strings(&["python -m pytest"]),
            to_strings(&["ruff check .", "python -m pytest"]),
            to_strings(&["lint", "test"]),
            to_strings(&["ruff reports no errors", "pytest exits 0"]),
            to_strings(&["python 3.11+ with project venv"]),
        ),
        Stack::Node => (
            "node",
            to_strings(&["npm test"]),
            to_strings(&["npm run lint", "npm test"]),
            to_strings(&["lint", "test"]),
            to_strings(&["lint passes", "tests pass"]),
            to_strings(&["node + npm on PATH"]),
        ),
        Stack::Generic => (
            "generic",
            to_strings(&["<repo build command>"]),
            to_strings(&["<repo verification command>"]),
            to_strings(&["verify"]),
            to_strings(&["verification command exits 0"]),
            to_strings(&["repo toolchain available"]),
        ),
    };
    proof {
        assert(views(build@) =~= build_test_commands(stack));
        assert(views(cmds@) =~= validation_commands(stack));
        assert(views(order@) =~= validation_execution_order(stack));
        assert(views(pass@) =~= validation_pass_conditions(stack));
        assert(views(env@) =~= validation_env_requirements(stack));
    }
    let entry = entry_points(t, stack, probes);
    let docs: Vec<String> = match canonical_doc {
        Some(d) => {
            let mut v: Vec<String> = Vec::new();
            v.push(d.clone());
            assert(views(v@) =~= seq![d@]);
            v
        },
        None => {
            let v = to_strings(&["(no canonical doc found)"]);
            assert(views(v@) =~= seq!["(no canonical doc found)"@]);
            v
        },
    };
    let mut dirs = top_level_dirs(&listing.root_dir);
    if dirs.len() == 0 {
        dirs = to_strings(&["."]);
        assert(views(dirs@) =~= seq!["."@]);
    }
    RepoFacts {
        stack: name,
        primary_directories: dirs,
        entry_points: entry,
        canonical_docs: docs,
        build_test_commands: build,
        validation_commands: cmds,
        validation_execution_order: order,
        validation_pass_conditions: pass,
        validation_env_requirements: env,
    }
}

} // verus!

verus! {

// ---------------------------------------------------------------------
// Planning and gathering

/// Decides, from the caller's observations, whether the target can be
/// gathered, which files to read, and the repo facts. Fails closed when the
/// root is not a directory, the target is empty, or the target is not a
/// file.
pub fn plan_gather(repo_root: &str, target_file: &str, listing: &RepoListing) -> (r: Result<GatherPlan>)
    requires
        listing.probes@.len() == PROBE_COUNT,
    ensures
        ({
            let t = strip_leading_slashes(target_file@);
            &&& !listing.root_is_dir ==> (r matches Err(ContextError::RepoNotFound(m)) && m@
                == repo_root@)
            &&& listing.root_is_dir && t.len() == 0 ==> (r matches Err(ContextError::BadRequest(m))
                && m@ == "target_file is required"@)
            &&& listing.root_is_dir && t.len() > 0 && listing.target_kind != PathKind::File ==> (
            r matches Err(ContextError::TargetNotFound(m)) && m@ == t)
            &&& listing.root_is_dir && t.len() > 0 && listing.target_kind == PathKind::File ==> (
            r matches Ok(p) && p.target_rel@ == t && opt_view(p.adjacent_name) == spec_adjacent_name(
                t,
                listing.target_dir,
            ) && opt_view(p.adjacent_rel) == spec_adjacent(t, listing.target_dir) && opt_view(p.canonical_doc) == spec_canonical_doc(listing.doc_dir, listing.probes@)
                && p.facts@ == spec_facts(t, opt_view(p.canonical_doc), *listing))
        }),
{
    if !listing.root_is_dir {
        return Err(ContextError::RepoNotFound(repo_root.to_owned()));
    }
    let target_rel = normalize_target(target_file);
    if target_rel.as_str().is_empty() {
        return Err(ContextError::BadRequest("target_file is required".to_owned()));
    }
    if listing.target_kind != PathKind::File {
        return Err(ContextError::TargetNotFound(target_rel));
    }
    let adjacent_name = choose_adjacent(target_rel.as_str(), &listing.target_dir);
    let adjacent_rel = match &adjacent_name {
        Some(n) => Some(adjacent_path(target_rel.as_str(), n)),
        None => None,
    };
    let canonical_doc = choose_canonical_doc(&listing.doc_dir, &listing.probes);
    let facts = detect_repo_facts(target_rel.as_str(), &canonical_doc, listing);
    Ok(GatherPlan { target_rel, adjacent_name, adjacent_rel, canonical_doc, facts })
}

/// A read that succeeded carries a well-formed modification time.
pub open spec fn read_wf(r: FileRead) -> bool {
    r matches Ok(f) ==> f.mtime.wf()
}

pub open spec fn opt_read_wf(r: Option<FileRead>) -> bool {
    r matches Some(x) ==> read_wf(x)
}

/// The I/O error that gathering reports: that of the first failed read,
/// in the order target, adjacent file, canonical doc.
pub open spec fn first_read_error(reads: GatherReads) -> Option<Seq<char>> {
    match (reads.target, reads.adjacent, reads.doc) {
        (Err(m), _, _) => Some(m@),
        (_, Some(Err(m)), _) => Some(m@),
        (_, _, Some(Err(m))) => Some(m@),
        _ => None,
    }
}

/// `doc://<repo>/<rel>`: the ref of the canonical doc.
pub open spec fn doc_ref_of(repo_id: Seq<char>, rel: Seq<char>) -> Seq<char> {
    "doc://"@ + repo_id + seq!['/'] + rel
}

/// `validation://<repo>/<stack>`: the ref of the validation rule.
pub open spec fn validation_ref_of(repo_id: Seq<char>, stack: Seq<char>) -> Seq<char> {
    "validation://"@ + repo_id + seq!['/'] + stack
}

/// The body of the validation source: the validation commands, one per
/// line (`"no-op"` when there are none).
pub open spec fn validation_body(cmds: Seq<Seq<char>>) -> Seq<char> {
    let b = join(cmds, seq!['\n']);
    if b.len() == 0 {
        "no-op"@
    } else {
        b
    }
}

pub open spec fn file_source(
    role: SourceRole,
    payload_ref: Seq<char>,
    rel: Seq<char>,
    read: FileRead,
    now: Timestamp,
) -> SourceView {
    SourceView {
        role,
        payload_ref,
        rel_path: Some(rel),
        content: read->Ok_0.content@,
        age_minutes: spec_age_minutes(now, read->Ok_0.mtime) as u64,
    }
}

/// The gathered sources, in order: the target, the adjacent file (when
/// there is one), the canonical doc (when there is one), and the
/// validation rule, which is synthesized and always fresh.
pub open spec fn spec_sources(repo_id: Seq<char>, plan: GatherPlan, reads: GatherReads, now: Timestamp) -> Seq<SourceView> {
    let t = plan.target_rel@;
    let target = seq![
        file_source(SourceRole::Target, file_ref_of(repo_id, t), t, reads.target, now),
    ];
    let adjacent = match plan.adjacent_rel {
        Some(a) => seq![
            file_source(SourceRole::Adjacent, file_ref_of(repo_id, a@), a@, reads.adjacent->0, now),
        ],
        None => Seq::empty(),
    };
    let doc = match plan.canonical_doc {
        Some(d) => seq![
            file_source(SourceRole::RepoTruth, doc_ref_of(repo_id, d@), d@, reads.doc->0, now),
        ],
        None => Seq::empty(),
    };
    let validation = seq![
        SourceView {
            role: SourceRole::Validation,
            payload_ref: validation_ref_of(repo_id, plan.facts.stack@),
            rel_path: None,
            content: validation_body(views(plan.facts.validation_commands@)),
            age_minutes: 0,
        },
    ];
    target + adjacent + doc + validation
}

pub open spec fn source_views(s: Seq<GatheredSource>) -> Seq<SourceView> {
    s.map_values(|g: GatheredSource| g@)
}

fn file_source_of(role: SourceRole, payload_ref: String, rel: String, read: FileText, now: Timestamp) -> (g: GatheredSource)
    requires
        now.wf(),
        read.mtime.wf(),
    ensures
        g@ == file_source(role, payload_ref@, rel@, Ok(read), now),
{
    let age = age_minutes(now, read.mtime);
    GatheredSource { role, payload_ref, rel_path: Some(rel), content: read.content, age_minutes: age }
}

fn prefixed_ref(scheme: &str, repo_id: &str, rest: &str) -> (r: String)
    ensures
        r@ == scheme@ + repo_id@ + seq!['/'] + rest@,
{
    let mut r = scheme.to_owned();
    r.append(repo_id);
    r.append("/");
    r.append(rest);
    proof {
        reveal_strlit("/");
    }
    r
}

/// Builds the gathered sources from the reads the plan asked for.
/// Fails closed with the first I/O error.
pub fn gather(repo_id: &str, repo_root: &str, plan: GatherPlan, reads: GatherReads, now: Timestamp) -> (r: Result<GatherResult>)
    requires
        now.wf(),
        read_wf(reads.target),
        opt_read_wf(reads.adjacent),
        opt_read_wf(reads.doc),
        reads.adjacent is Some <==> plan.adjacent_rel is Some,
        reads.doc is Some <==> plan.canonical_doc is Some,
    ensures
        match first_read_error(reads) {
            Some(m) => r matches Err(ContextError::Io(e)) && e@ == m,
            None => r matches Ok(g) && {
                &&& g.repo_id@ == repo_id@
                &&& g.repo_root@ == repo_root@
                &&& g.target_rel@ == plan.target_rel@
                &&& g.facts@ == plan.facts@
                &&& source_views(g.sources@) == spec_sources(repo_id@, plan, reads, now)
            },
        },
{
    let ghost plan0 = plan;
    let ghost reads0 = reads;
    let GatherPlan { target_rel, adjacent_name: _, adjacent_rel, canonical_doc, facts } = plan;
    let GatherReads { target, adjacent, doc } = reads;
    let target_text = match target {
        Err(m) => {
            return Err(ContextError::Io(m));
        },
        Ok(f) => f,
    };
    let adjacent_text = match adjacent {
        Some(Err(m)) => {
            return Err(ContextError::Io(m));
        },
        Some(Ok(f)) => Some(f),
        None => None,
    };
    let doc_text = match doc {
        Some(Err(m)) => {
            return Err(ContextError::Io(m));
        },
        Some(Ok(f)) => Some(f),
        None => None,
    };
    let mut sources: Vec<GatheredSource> = Vec::new();
    let target_ref = file_ref(repo_id, target_rel.as_str());
    sources.push(file_source_of(SourceRole::Target, target_ref, target_rel.clone(), target_text, now));
    let ghost s1 = source_views(sources@);
    match (adjacent_rel, adjacent_text) {
        (Some(a), Some(f)) => {
            let aref = file_ref(repo_id, a.as_str());
            sources.push(file_source_of(SourceRole::Adjacent, aref, a, f, now));
        },
        _ => {},
    }
    let ghost s2 = source_views(sources@);
    match (canonical_doc, doc_text) {
        (Some(d), Some(f)) => {
            let dref = prefixed_ref("doc://", repo_id, d.as_str());
            sources.push(file_source_of(SourceRole::RepoTruth, dref, d, f, now));
        },
        _ => {},
    }
    let ghost s3 = source_views(sources@);
    let body = join_strings(&facts.validation_commands, "\n");
    let content = if body.as_str().is_empty() {
        "no-op".to_owned()
    } else {
        body
    };
    let vref = prefixed_ref("validation://", repo_id, facts.stack);
    sources.push(
        GatheredSource {
            role: SourceRole::Validation,
            payload_ref: vref,
            rel_path: None,
            content,
            age_minutes: 0,
        },
    );
    proof {
        reveal_strlit("\n");
        assert("\n"@ =~= seq!['\n']);
        let spec = spec_sources(repo_id@, plan0, reads0, now);
        assert(source_views(sources@) =~= spec);
    }
    Ok(
        GatherResult {
            repo_id: repo_id.to_owned(),
            repo_root: repo_root.to_owned(),
            target_rel,
            facts,
            sources,
        },
    )
}

} // verus!

verus! {

/// Normalizing a target path twice changes nothing more.
pub proof fn law_normalize_idempotent(t: Seq<char>)
    ensures
        strip_leading_slashes(strip_leading_slashes(t)) == strip_leading_slashes(t),
    decreases t.len(),
{
    if t.len() > 0 && t[0] == '/' {
        law_normalize_idempotent(t.drop_first());
    }
}

/// The gathered sources: the target first and the validation rule last,
/// with the adjacent file and the canonical doc between them when present
/// (2 to 4 sources); the validation rule has no file and is always fresh.
pub proof fn law_sources_shape(repo_id: Seq<char>, plan: GatherPlan, reads: GatherReads, now: Timestamp)
    ensures
        ({
            let s = spec_sources(repo_id, plan, reads, now);
            &&& s.len() == 2 + (if plan.adjacent_rel is Some { 1int } else { 0 }) + (if plan.canonical_doc is Some { 1int } else { 0 })
            &&& s[0].role == SourceRole::Target
            &&& s[0].payload_ref == file_ref_of(repo_id, plan.target_rel@)
            &&& s[0].rel_path == Some(plan.target_rel@)
            &&& s.last().role == SourceRole::Validation
            &&& s.last().rel_path is None
            &&& s.last().age_minutes == 0
            &&& (plan.adjacent_rel is Some ==> s[1].role == SourceRole::Adjacent)
            &&& (plan.canonical_doc is Some ==> s[s.len() - 2].role == SourceRole::RepoTruth)
        }),
{
}

proof fn lemma_dedup_len(s: Seq<Seq<char>>)
    ensures
        s.len() > 0 ==> dedup(s).len() > 0,
        dedup(s).len() <= s.len(),
    decreases s.len(),
{
    if s.len() > 1 {
        lemma_dedup_len(s.drop_last());
    }
}

/// The repo facts always name at least one entry point, one and at most 12
/// primary directories, exactly one canonical doc, and a non-empty list of
/// validation commands with one execution step per command.
pub proof fn law_facts_nonempty(t: Seq<char>, doc: Option<Seq<char>>, listing: RepoListing)
    ensures
        ({
            let f = spec_facts(t, doc, listing);
            &&& f.entry_points.len() > 0
            &&& 1 <= f.primary_directories.len() <= 12
            &&& f.canonical_docs.len() == 1
            &&& f.validation_commands.len() > 0
            &&& f.validation_commands.len() == f.validation_execution_order.len()
        }),
{
    let e = sorted(base_entry_points(spec_stack(t, listing.probes@)) + discovered_entry_points(listing.probes@));
    lemma_dedup_len(e);
}


proof fn lemma_dedup_contains(s: Seq<Seq<char>>, x: Seq<char>)
    requires
        s.contains(x),
    ensures
        dedup(s).contains(x),
    decreases s.len(),
{
    if s.len() > 1 {
        let i = choose|i: int| 0 <= i < s.len() && s[i] == x;
        let p = dedup(s.drop_last());
        if i < s.len() - 1 {
            assert(s.drop_last()[i] == x);
            lemma_dedup_contains(s.drop_last(), x);
        } else if s.last() == s[s.len() - 2] {
            assert(s.drop_last()[s.len() - 2] == x);
            lemma_dedup_contains(s.drop_last(), x);
        } else {
            assert(p.push(s.last())[p.len() as int] == x);
        }
        if !(s.last() == s[s.len() - 2]) && p.contains(x) {
            let k = choose|k: int| 0 <= k < p.len() && p[k] == x;
            assert(p.push(s.last())[k] == x);
        }
    }
}

proof fn lemma_sorted_contains(s: Seq<Seq<char>>, x: Seq<char>)
    ensures
        sorted(s).contains(x) <==> s.contains(x),
        sorted(s).len() == s.len(),
{
    broadcast use vstd::seq_lib::group_to_multiset_ensures;

    lemma_str_le_total_ordering();
    s.lemma_sort_by_ensures(str_leq());
    assert(s.len() == s.to_multiset().len());
    assert(sorted(s).len() == sorted(s).to_multiset().len());
    assert(s.contains(x) <==> s.to_multiset().count(x) > 0);
    assert(sorted(s).contains(x) <==> sorted(s).to_multiset().count(x) > 0);
}

/// The toolchain decision and the commands each stack carries. Rust when
/// `Cargo.toml` exists or the target is a `.rs` file; else Python when
/// `pyproject.toml`, `requirements.txt` or `setup.py` exists or the target
/// is a `.py` file; else Node as soon as either `package.json` or
/// `tsconfig.json` exists; else the generic placeholders. A Rust or Node
/// repo lists its manifest among the entry points.
#[verifier::spinoff_prover]
pub proof fn law_stack_detection(t: Seq<char>, doc: Option<Seq<char>>, listing: RepoListing)
    requires
        listing.probes@.len() == PROBE_COUNT,
    ensures
        ({
            let p = listing.probes@;
            let f = spec_facts(t, doc, listing);
            let rust = p[0] != PathKind::Missing || ends_with(t, ".rs"@);
            let python = p[1] != PathKind::Missing || p[2] != PathKind::Missing || p[3]
                != PathKind::Missing || ends_with(t, ".py"@);
            let node = p[4] != PathKind::Missing || p[5] != PathKind::Missing;
            &&& rust ==> {
                &&& f.stack == "rust"@
                &&& f.build_test_commands == seq!["cargo build"@, "cargo test"@]
                &&& f.validation_commands == seq![
                    "cargo fmt --check"@,
                    "cargo clippy"@,
                    "cargo test"@,
                ]
                &&& f.entry_points.contains("Cargo.toml"@)
            }
            &&& !rust && python ==> {
                &&& f.stack == "python"@
                &&& f.build_test_commands == seq!["python -m pytest"@]
                &&& f.validation_commands == seq!["ruff check ."@, "python -m pytest"@]
            }
            &&& !rust && !python && node ==> {
                &&& f.stack == "node"@
                &&& f.build_test_commands == seq!["npm test"@]
                &&& f.validation_commands == seq!["npm run lint"@, "npm test"@]
                &&& f.entry_points.contains("package.json"@)
            }
            &&& !rust && !python && !node ==> {
                &&& f.stack == "generic"@
                &&& f.build_test_commands == seq!["<repo build command>"@]
                &&& f.validation_commands == seq!["<repo verification command>"@]
            }
        }),
{
    let p = listing.probes@;
    let st = spec_stack(t, p);
    let all = base_entry_points(st) + discovered_entry_points(p);
    if st == Stack::Rust || st == Stack::Node {
        let m = base_entry_points(st)[0];
        assert(all[0] == m);
        lemma_sorted_contains(all, m);
        lemma_dedup_contains(sorted(all), m);
        let e = dedup(sorted(all));
        assert(e.len() > 0);
    }
}

/// The entries of a listing that could be read; none otherwise.
pub open spec fn listed(dir: Option<Vec<DirEntryInfo>>) -> Seq<DirEntryInfo> {
    match dir {
        Some(v) => v@,
        None => Seq::empty(),
    }
}

/// A `doc/` entry whose name ends in `SYSTEM.md`.
pub open spec fn is_system_doc(e: DirEntryInfo) -> bool {
    e.name is Some && ends_with(e.name->0@, "SYSTEM.md"@)
}

#[verifier::spinoff_prover]
proof fn lemma_doc_candidates(es: Seq<DirEntryInfo>, n: Seq<char>)
    ensures
        doc_candidates(es).contains(n) <==> exists|i: int|
            0 <= i < es.len() && #[trigger] is_system_doc(es[i]) && es[i].name->0@ == n,
    decreases es.len(),
{
    if es.len() > 0 {
        let prev = es.drop_last();
        lemma_doc_candidates(prev, n);
        let c = doc_candidates(es);
        let pc = doc_candidates(prev);
        if pc.contains(n) {
            let i = choose|i: int| 0 <= i < prev.len() && #[trigger] is_system_doc(prev[i]) && prev[i].name->0@ == n;
            assert(es[i] == prev[i]);
            let k = choose|k: int| 0 <= k < pc.len() && pc[k] == n;
            if is_system_doc(es.last()) {
                assert(c[k] == n);
            }
        }
        if is_system_doc(es.last()) && es.last().name->0@ == n {
            assert(c[c.len() - 1] == n);
            assert(is_system_doc(es[es.len() - 1]));
        }
        if c.contains(n) {
            let k = choose|k: int| 0 <= k < c.len() && c[k] == n;
            if k < pc.len() {
                assert(pc[k] == n);
                let i = choose|i: int| 0 <= i < prev.len() && #[trigger] is_system_doc(prev[i]) && prev[i].name->0@ == n;
                assert(es[i] == prev[i]);
            } else {
                assert(is_system_doc(es[es.len() - 1]));
            }
        }
        if exists|i: int| 0 <= i < es.len() && #[trigger] is_system_doc(es[i]) && es[i].name->0@ == n {
            let i = choose|i: int| 0 <= i < es.len() && #[trigger] is_system_doc(es[i]) && es[i].name->0@ == n;
            if i < es.len() - 1 {
                assert(prev[i] == es[i]);
                assert(is_system_doc(prev[i]));
            }
        }
    }
}

/// The canonical repo-truth doc. When some `doc/` entry is named
/// `*SYSTEM.md`, it is `doc/` and the least such name in lexicographic
/// order. Otherwise it is the first of `SYSTEM.md`, `README.md`,
/// `readme.md`, `Readme.md` that is a regular file at the root, and there
/// is none when none of them is.
#[verifier::spinoff_prover]
pub proof fn law_canonical_doc(doc_dir: Option<Vec<DirEntryInfo>>, probes: Seq<PathKind>)
    requires
        probes.len() == PROBE_COUNT,
    ensures
        ({
            let es = listed(doc_dir);
            let r = spec_canonical_doc(doc_dir, probes);
            &&& (forall|i: int| 0 <= i < es.len() ==> !#[trigger] is_system_doc(es[i])) ==> r == (
            if probes[12] == PathKind::File {
                Some("SYSTEM.md"@)
            } else if probes[13] == PathKind::File {
                Some("README.md"@)
            } else if probes[14] == PathKind::File {
                Some("readme.md"@)
            } else if probes[15] == PathKind::File {
                Some("Readme.md"@)
            } else {
                None
            })
            &&& (exists|i: int| 0 <= i < es.len() && #[trigger] is_system_doc(es[i])) ==> exists|i: int|
                0 <= i < es.len() && #[trigger] is_system_doc(es[i]) && r == Some(
                    "doc/"@ + es[i].name->0@,
                ) && forall|j: int|
                    0 <= j < es.len() && #[trigger] is_system_doc(es[j]) ==> str_le(
                        es[i].name->0@,
                        es[j].name->0@,
                    )
        }),
{
    let es = listed(doc_dir);
    let hits = doc_candidates(es);
    assert(hits == match doc_dir {
        Some(v) => doc_candidates(v@),
        None => Seq::<Seq<char>>::empty(),
    });
    if hits.len() > 0 {
        lemma_least_of_sorted(hits);
        let n0 = sorted(hits)[0];
        lemma_doc_candidates(es, n0);
        let i = choose|i: int| 0 <= i < es.len() && #[trigger] is_system_doc(es[i]) && es[i].name->0@ == n0;
        assert forall|j: int| 0 <= j < es.len() && #[trigger] is_system_doc(es[j]) implies str_le(
            es[i].name->0@,
            es[j].name->0@,
        ) by {
            lemma_doc_candidates(es, es[j].name->0@);
        }
        assert(is_system_doc(es[i]));
    } else {
        if exists|i: int| 0 <= i < es.len() && #[trigger] is_system_doc(es[i]) {
            let i = choose|i: int| 0 <= i < es.len() && #[trigger] is_system_doc(es[i]);
            lemma_doc_candidates(es, es[i].name->0@);
            assert(hits.contains(es[i].name->0@));
            assert(false);
        }
    }
}

proof fn lemma_age_fits(now: Timestamp, mtime: Timestamp)
    requires
        now.wf(),
        mtime.wf(),
    ensures
        0 <= spec_age_minutes(now, mtime) <= u64::MAX,
{
    if now.total_nanos() >= mtime.total_nanos() {
        let d = now.total_nanos() - mtime.total_nanos();
        assert(0 <= (d / 1_000_000_000) / 60 <= u64::MAX) by (nonlinear_arith)
            requires
                0 <= d <= 2 * (i64::MAX as int + 1) * 1_000_000_000,
        ;
    }
}

/// Every file-backed source carries the content of its own read and its
/// age in whole minutes against the one assembly clock `now`: the target,
/// the adjacent file and the canonical doc alike.
#[verifier::spinoff_prover]
pub proof fn law_source_ages(repo_id: Seq<char>, plan: GatherPlan, reads: GatherReads, now: Timestamp)
    requires
        now.wf(),
        read_wf(reads.target),
        opt_read_wf(reads.adjacent),
        opt_read_wf(reads.doc),
    ensures
        ({
            let s = spec_sources(repo_id, plan, reads, now);
            let ft = reads.target->Ok_0;
            let fa = reads.adjacent->0->Ok_0;
            let fd = reads.doc->0->Ok_0;
            &&& reads.target is Ok ==> {
                &&& s[0].payload_ref == "file://"@ + repo_id + seq!['/'] + plan.target_rel@
                &&& s[0].content == ft.content@
                &&& s[0].age_minutes == spec_age_minutes(now, ft.mtime)
            }
            &&& (plan.adjacent_rel is Some && reads.adjacent is Some && reads.adjacent->0 is Ok) ==> {
                &&& s[1].role == SourceRole::Adjacent
                &&& s[1].payload_ref == "file://"@ + repo_id + seq!['/'] + plan.adjacent_rel->0@
                &&& s[1].rel_path == Some(plan.adjacent_rel->0@)
                &&& s[1].content == fa.content@
                &&& s[1].age_minutes == spec_age_minutes(now, fa.mtime)
            }
            &&& (plan.canonical_doc is Some && reads.doc is Some && reads.doc->0 is Ok) ==> {
                &&& s[s.len() - 2].role == SourceRole::RepoTruth
                &&& s[s.len() - 2].payload_ref == "doc://"@ + repo_id + seq!['/'] + plan.canonical_doc->0@
                &&& s[s.len() - 2].rel_path == Some(plan.canonical_doc->0@)
                &&& s[s.len() - 2].content == fd.content@
                &&& s[s.len() - 2].age_minutes == spec_age_minutes(now, fd.mtime)
            }
            &&& s.last().payload_ref == "validation://"@ + repo_id + seq!['/'] + plan.facts.stack@
            &&& s.last().content == (if join(views(plan.facts.validation_commands@), seq!['\n']).len()
                == 0 {
                "no-op"@
            } else {
                join(views(plan.facts.validation_commands@), seq!['\n'])
            })
        }),
{
    match reads.target {
        Ok(f) => lemma_age_fits(now, f.mtime),
        Err(_) => {},
    }
    match reads.adjacent {
        Some(Ok(f)) => lemma_age_fits(now, f.mtime),
        _ => {},
    }
    match reads.doc {
        Some(Ok(f)) => lemma_age_fits(now, f.mtime),
        _ => {},
    }
}


#[verifier::spinoff_prover]
proof fn lemma_least_of_sorted(c: Seq<Seq<char>>)
    requires
        c.len() > 0,
    ensures
        c.contains(sorted(c)[0]),
        forall|x: Seq<char>| c.contains(x) ==> str_le(sorted(c)[0], x),
{
    lemma_sorted_contains(c, c[0]);
    lemma_sorted_contains(c, sorted(c)[0]);
    lemma_str_le_total_ordering();
    c.lemma_sort_by_ensures(str_leq());
    assert(sorted(c).contains(sorted(c)[0])) by {
        assert(sorted(c)[0] == sorted(c)[0]);
    }
    assert forall|x: Seq<char>| c.contains(x) implies str_le(sorted(c)[0], x) by {
        lemma_sorted_contains(c, x);
        let k = choose|k: int| 0 <= k < sorted(c).len() && sorted(c)[k] == x;
        if k == 0 {
            crate::text::lemma_str_le_reflexive(x);
        } else {
            assert(str_leq()(sorted(c)[0], sorted(c)[k]));
        }
    }
}

#[verifier::spinoff_prover]
proof fn lemma_adjacent_candidates(es: Seq<DirEntryInfo>, t: Seq<char>, n: Seq<char>)
    ensures
        adjacent_candidates(es, t).contains(n) <==> exists|i: int|
            0 <= i < es.len() && #[trigger] adjacent_eligible(es[i], t) && es[i].name->0@ == n,
    decreases es.len(),
{
    if es.len() > 0 {
        let prev = es.drop_last();
        lemma_adjacent_candidates(prev, t, n);
        let c = adjacent_candidates(es, t);
        let pc = adjacent_candidates(prev, t);
        if pc.contains(n) {
            let i = choose|i: int| 0 <= i < prev.len() && #[trigger] adjacent_eligible(prev[i], t) && prev[i].name->0@ == n;
            assert(es[i] == prev[i]);
            let k = choose|k: int| 0 <= k < pc.len() && pc[k] == n;
            if adjacent_eligible(es.last(), t) {
                assert(c[k] == n);
            }
        }
        if adjacent_eligible(es.last(), t) && es.last().name->0@ == n {
            assert(c[c.len() - 1] == n);
            assert(adjacent_eligible(es[es.len() - 1], t));
        }
        if c.contains(n) {
            let k = choose|k: int| 0 <= k < c.len() && c[k] == n;
            if k < pc.len() {
                assert(pc[k] == n);
                let i = choose|i: int| 0 <= i < prev.len() && #[trigger] adjacent_eligible(prev[i], t) && prev[i].name->0@ == n;
                assert(es[i] == prev[i]);
            } else {
                assert(adjacent_eligible(es[es.len() - 1], t));
            }
        }
        if exists|i: int| 0 <= i < es.len() && #[trigger] adjacent_eligible(es[i], t) && es[i].name->0@ == n {
            let i = choose|i: int| 0 <= i < es.len() && #[trigger] adjacent_eligible(es[i], t) && es[i].name->0@ == n;
            if i < es.len() - 1 {
                assert(prev[i] == es[i]);
                assert(adjacent_eligible(prev[i], t));
            }
        }
    }
}

/// The adjacent file of target `t`: none when its directory cannot be
/// listed or holds no other regular file with a UTF-8 name and the
/// target's extension; otherwise the least such name in lexicographic
/// order.
#[verifier::spinoff_prover]
pub proof fn law_adjacent_choice(t: Seq<char>, listing: Option<Vec<DirEntryInfo>>)
    ensures
        ({
            let es = listed(listing);
            let r = spec_adjacent_name(t, listing);
            let name = file_name_of(t);
            &&& listing is None ==> r is None
            &&& listing is Some ==> (r is None <==> forall|i: int|
                0 <= i < es.len() ==> !{
                    &&& (#[trigger] es[i]).kind == PathKind::File
                    &&& es[i].name is Some
                    &&& es[i].name->0@ != name
                    &&& extension_of(es[i].name->0@) == extension_of(name)
                })
            &&& r is Some ==> exists|i: int|
                0 <= i < es.len() && {
                    &&& (#[trigger] es[i]).kind == PathKind::File
                    &&& es[i].name is Some
                    &&& es[i].name->0@ != name
                    &&& extension_of(es[i].name->0@) == extension_of(name)
                    &&& es[i].name->0@ == r->0
                } && forall|j: int|
                    0 <= j < es.len() && {
                        &&& (#[trigger] es[j]).kind == PathKind::File
                        &&& es[j].name is Some
                        &&& es[j].name->0@ != name
                        &&& extension_of(es[j].name->0@) == extension_of(name)
                    } ==> str_le(r->0, es[j].name->0@)
        }),
{
    let es = listed(listing);
    if listing is Some {
        let c = adjacent_candidates(es, t);
        if c.len() > 0 {
            lemma_least_of_sorted(c);
            let n0 = sorted(c)[0];
            lemma_adjacent_candidates(es, t, n0);
            let i = choose|i: int| 0 <= i < es.len() && #[trigger] adjacent_eligible(es[i], t) && es[i].name->0@ == n0;
            assert(adjacent_eligible(es[i], t));
            assert forall|j: int|
                0 <= j < es.len() && adjacent_eligible(#[trigger] es[j], t) implies str_le(n0, es[j].name->0@) by {
                lemma_adjacent_candidates(es, t, es[j].name->0@);
            }
        } else {
            assert forall|i: int| 0 <= i < es.len() implies !adjacent_eligible(#[trigger] es[i], t) by {
                if adjacent_eligible(es[i], t) {
                    lemma_adjacent_candidates(es, t, es[i].name->0@);
                    assert(c.contains(es[i].name->0@));
                }
            }
        }
    }
}

#[verifier::spinoff_prover]
proof fn lemma_top_candidates(es: Seq<DirEntryInfo>, n: Seq<char>)
    ensures
        top_candidates(es).contains(n) <==> exists|i: int|
            0 <= i < es.len() && #[trigger] top_eligible(es[i]) && es[i].name->0@ == n,
    decreases es.len(),
{
    if es.len() > 0 {
        let prev = es.drop_last();
        lemma_top_candidates(prev, n);
        let c = top_candidates(es);
        let pc = top_candidates(prev);
        if pc.contains(n) {
            let i = choose|i: int| 0 <= i < prev.len() && #[trigger] top_eligible(prev[i]) && prev[i].name->0@ == n;
            assert(es[i] == prev[i]);
            let k = choose|k: int| 0 <= k < pc.len() && pc[k] == n;
            if top_eligible(es.last()) {
                assert(c[k] == n);
            }
        }
        if top_eligible(es.last()) && es.last().name->0@ == n {
            assert(c[c.len() - 1] == n);
            assert(top_eligible(es[es.len() - 1]));
        }
        if c.contains(n) {
            let k = choose|k: int| 0 <= k < c.len() && c[k] == n;
            if k < pc.len() {
                assert(pc[k] == n);
                let i = choose|i: int| 0 <= i < prev.len() && #[trigger] top_eligible(prev[i]) && prev[i].name->0@ == n;
                assert(es[i] == prev[i]);
            } else {
                assert(top_eligible(es[es.len() - 1]));
            }
        }
        if exists|i: int| 0 <= i < es.len() && #[trigger] top_eligible(es[i]) && es[i].name->0@ == n {
            let i = choose|i: int| 0 <= i < es.len() && #[trigger] top_eligible(es[i]) && es[i].name->0@ == n;
            if i < es.len() - 1 {
                assert(prev[i] == es[i]);
                assert(top_eligible(prev[i]));
            }
        }
    }
}

/// `n` is a name the primary directories may list: a UTF-8 name that is
/// not hidden and is none of the build and tooling directories.
pub open spec fn listable_dir_name(n: Seq<char>) -> bool {
    &&& !(n.len() > 0 && n[0] == '.')
    &&& !seq![
        ".git"@,
        "target"@,
        "node_modules"@,
        "__pycache__"@,
        ".venv"@,
        "venv"@,
        "dist"@,
        "build"@,
        ".mypy_cache"@,
        ".pytest_cache"@,
        ".ruff_cache"@,
    ].contains(n)
}

/// Some entry of `es` is a directory named `n`.
pub open spec fn has_dir_named(es: Seq<DirEntryInfo>, n: Seq<char>) -> bool {
    exists|i: int| 0 <= i < es.len() && (#[trigger] es[i]).kind == PathKind::Dir && es[i].name is Some && es[i].name->0@ == n
}

/// The primary directories: at most 12 names, in lexicographic order, each
/// that of a root directory that is not hidden and is none of `.git`,
/// `target`, `node_modules`, `__pycache__`, `.venv`, `venv`, `dist`,
/// `build`, `.mypy_cache`, `.pytest_cache`, `.ruff_cache`. Every other
/// such directory is listed too, unless 12 are listed already and it sorts
/// after each of them.
pub proof fn law_top_level_dirs(root_dir: Option<Vec<DirEntryInfo>>)
    ensures
        ({
            let es = listed(root_dir);
            let r = spec_top_level_dirs(root_dir);
            &&& r.len() <= 12
            &&& forall|k: int, l: int| 0 <= k < l < r.len() ==> str_le(#[trigger] r[k], #[trigger] r[l])
            &&& forall|k: int|
                0 <= k < r.len() ==> #[trigger] listable_dir_name(r[k]) && has_dir_named(es, r[k])
            &&& forall|i: int|
                0 <= i < es.len() && (#[trigger] es[i]).kind == PathKind::Dir && es[i].name is Some
                    && listable_dir_name(es[i].name->0@) ==> r.contains(es[i].name->0@) || (r.len()
                    == 12 && forall|k: int| 0 <= k < r.len() ==> str_le(#[trigger] r[k], es[i].name->0@))
        }),
{
    lemma_top_dirs_sorted(root_dir);
    lemma_top_dirs_listed(root_dir);
    lemma_top_dirs_complete(root_dir);
}

proof fn lemma_listable_dir_name()
    ensures
        forall|n: Seq<char>| #[trigger] listable_dir_name(n) == (!(n.len() > 0 && n[0] == '.') && !skip_dirs().contains(n)),
{
    assert(skip_dirs() =~= seq![
        ".git"@,
        "target"@,
        "node_modules"@,
        "__pycache__"@,
        ".venv"@,
        "venv"@,
        "dist"@,
        "build"@,
        ".mypy_cache"@,
        ".pytest_cache"@,
        ".ruff_cache"@,
    ]);
}

#[verifier::spinoff_prover]
proof fn lemma_top_dirs_sorted(root_dir: Option<Vec<DirEntryInfo>>)
    ensures
        ({
            let r = spec_top_level_dirs(root_dir);
            &&& r.len() <= 12
            &&& forall|k: int, l: int| 0 <= k < l < r.len() ==> str_le(#[trigger] r[k], #[trigger] r[l])
        }),
{
    let c = top_candidates(listed(root_dir));
    let sc = sorted(c);
    let r = spec_top_level_dirs(root_dir);
    lemma_str_le_total_ordering();
    c.lemma_sort_by_ensures(str_leq());
    if root_dir is Some {
        assert(r == prefix(sc, 12));
        assert forall|k: int, l: int| 0 <= k < l < r.len() implies str_le(#[trigger] r[k], #[trigger] r[l]) by {
            assert(r[k] == sc[k] && r[l] == sc[l]);
            assert(str_leq()(sc[k], sc[l]));
        }
    }
}

#[verifier::spinoff_prover]
proof fn lemma_top_dirs_listed(root_dir: Option<Vec<DirEntryInfo>>)
    ensures
        ({
            let es = listed(root_dir);
            let r = spec_top_level_dirs(root_dir);
            forall|k: int| 0 <= k < r.len() ==> #[trigger] listable_dir_name(r[k]) && has_dir_named(es, r[k])
        }),
{
    let es = listed(root_dir);
    let c = top_candidates(es);
    let sc = sorted(c);
    let r = spec_top_level_dirs(root_dir);
    lemma_listable_dir_name();
    if root_dir is Some {
        assert(r == prefix(sc, 12));
        assert forall|k: int| 0 <= k < r.len() implies #[trigger] listable_dir_name(r[k]) && has_dir_named(es, r[k]) by {
            lemma_sorted_contains(c, r[k]);
            assert(sc.contains(r[k])) by {
                assert(r[k] == sc[k]);
            }
            lemma_top_candidates(es, r[k]);
            let i = choose|i: int| 0 <= i < es.len() && #[trigger] top_eligible(es[i]) && es[i].name->0@ == r[k];
            assert(es[i].name is Some && es[i].name->0@ == r[k]);
        }
    }
}

#[verifier::spinoff_prover]
proof fn lemma_top_dirs_complete(root_dir: Option<Vec<DirEntryInfo>>)
    ensures
        ({
            let es = listed(root_dir);
            let r = spec_top_level_dirs(root_dir);
            forall|i: int|
                0 <= i < es.len() && (#[trigger] es[i]).kind == PathKind::Dir && es[i].name is Some
                    && listable_dir_name(es[i].name->0@) ==> r.contains(es[i].name->0@) || (r.len()
                    == 12 && forall|k: int| 0 <= k < r.len() ==> str_le(#[trigger] r[k], es[i].name->0@))
        }),
{
    let es = listed(root_dir);
    let c = top_candidates(es);
    let sc = sorted(c);
    let r = spec_top_level_dirs(root_dir);
    lemma_listable_dir_name();
    lemma_str_le_total_ordering();
    c.lemma_sort_by_ensures(str_leq());
    if root_dir is Some {
        assert(r == prefix(sc, 12));
        assert forall|i: int|
            0 <= i < es.len() && (#[trigger] es[i]).kind == PathKind::Dir && es[i].name is Some
                && listable_dir_name(es[i].name->0@) implies r.contains(es[i].name->0@) || (r.len() == 12
            && forall|k: int| 0 <= k < r.len() ==> str_le(#[trigger] r[k], es[i].name->0@)) by {
            let n = es[i].name->0@;
            assert(top_eligible(es[i]));
            lemma_top_candidates(es, n);
            lemma_sorted_contains(c, n);
            let m = choose|m: int| 0 <= m < sc.len() && sc[m] == n;
            if m < r.len() {
                assert(r[m] == n);
            } else {
                assert forall|k: int| 0 <= k < r.len() implies str_le(#[trigger] r[k], n) by {
                    assert(r[k] == sc[k]);
                    assert(str_leq()(sc[k], sc[m]));
                }
            }
        }
    }
}


#[verifier::spinoff_prover]
proof fn lemma_dedup_sorted(s: Seq<Seq<char>>)
    requires
        forall|i: int, j: int| 0 <= i < j < s.len() ==> str_le(#[trigger] s[i], #[trigger] s[j]),
    ensures
        forall|k: int, l: int|
            0 <= k < l < dedup(s).len() ==> str_le(#[trigger] dedup(s)[k], #[trigger] dedup(s)[l])
                && dedup(s)[k] != dedup(s)[l],
        s.len() > 0 ==> dedup(s).len() > 0 && dedup(s).last() == s.last(),
        forall|x: Seq<char>| #[trigger] dedup(s).contains(x) ==> s.contains(x),
    decreases s.len(),
{
    if s.len() > 1 {
        let q = s.drop_last();
        let p = dedup(q);
        let d = dedup(s);
        lemma_dedup_sorted(q);
        assert(p.last() == s[s.len() - 2]);
        assert forall|x: Seq<char>| #[trigger] d.contains(x) implies s.contains(x) by {
            let k = choose|k: int| 0 <= k < d.len() && d[k] == x;
            if k < p.len() {
                assert(p[k] == x);
                assert(p.contains(x));
                let m = choose|m: int| 0 <= m < q.len() && q[m] == x;
                assert(s[m] == x);
            } else {
                assert(s[s.len() - 1] == x);
            }
        }
        if s.last() != s[s.len() - 2] {
            assert forall|k: int| 0 <= k < p.len() implies str_le(#[trigger] p[k], s.last())
                && p[k] != s.last() by {
                if k < p.len() - 1 {
                    assert(str_le(p[k], p[p.len() - 1]));
                } else {
                    crate::text::lemma_str_le_reflexive(p[k]);
                }
                assert(str_le(s[s.len() - 2], s[s.len() - 1]));
                crate::text::lemma_str_le_transitive(p[k], s[s.len() - 2], s.last());
                if p[k] == s.last() {
                    crate::text::lemma_str_le_antisymmetric(s[s.len() - 2], s.last());
                }
            }
            assert forall|k: int, l: int|
                0 <= k < l < d.len() implies str_le(#[trigger] d[k], #[trigger] d[l]) && d[k] != d[l] by {
                if l < p.len() {
                    assert(d[k] == p[k] && d[l] == p[l]);
                } else {
                    assert(d[k] == p[k]);
                }
            }
        }
    }
}

#[verifier::spinoff_prover]
proof fn lemma_present(names: Seq<Seq<char>>, flags: Seq<bool>, x: Seq<char>)
    requires
        names.len() == flags.len(),
    ensures
        present(names, flags).contains(x) <==> exists|k: int|
            0 <= k < names.len() && #[trigger] flags[k] && names[k] == x,
    decreases names.len(),
{
    if names.len() > 0 {
        let pn = names.drop_last();
        let pf = flags.drop_last();
        lemma_present(pn, pf, x);
        let c = present(names, flags);
        let pc = present(pn, pf);
        if pc.contains(x) {
            let k = choose|k: int| 0 <= k < pn.len() && #[trigger] pf[k] && pn[k] == x;
            assert(flags[k] && names[k] == x);
            let m = choose|m: int| 0 <= m < pc.len() && pc[m] == x;
            if flags.last() {
                assert(c[m] == x);
            }
        }
        if flags.last() && names.last() == x {
            assert(c[c.len() - 1] == x);
            assert(flags[names.len() - 1]);
        }
        if c.contains(x) {
            let m = choose|m: int| 0 <= m < c.len() && c[m] == x;
            if m < pc.len() {
                assert(pc[m] == x);
                let k = choose|k: int| 0 <= k < pn.len() && #[trigger] pf[k] && pn[k] == x;
                assert(flags[k]);
            } else {
                assert(flags[names.len() - 1]);
            }
        }
        if exists|k: int| 0 <= k < names.len() && #[trigger] flags[k] && names[k] == x {
            let k = choose|k: int| 0 <= k < names.len() && #[trigger] flags[k] && names[k] == x;
            if k < names.len() - 1 {
                assert(pf[k]);
            }
        }
    }
}

/// `x` is an entry point to expect at a root whose probes are `probes`,
/// for target `t`: the Rust manifest `Cargo.toml` in a Rust repo (a root
/// `Cargo.toml` or a `.rs` target), the Node manifest `package.json` in a
/// Node repo (no Rust or Python marker, and a root `package.json` or
/// `tsconfig.json`), or one of `app`, `src`, `main.py`, `app/__init__.py`,
/// `src/main.rs`, `src/lib.rs` that exists at the root.
pub open spec fn expected_entry_point(t: Seq<char>, probes: Seq<PathKind>, x: Seq<char>) -> bool {
    let names = seq![
        "app"@,
        "src"@,
        "main.py"@,
        "app/__init__.py"@,
        "src/main.rs"@,
        "src/lib.rs"@,
    ];
    let rust = probes[0] != PathKind::Missing || ends_with(t, ".rs"@);
    let python = probes[1] != PathKind::Missing || probes[2] != PathKind::Missing || probes[3]
        != PathKind::Missing || ends_with(t, ".py"@);
    let node = !rust && !python && (probes[4] != PathKind::Missing || probes[5] != PathKind::Missing);
    ||| rust && x == "Cargo.toml"@
    ||| node && x == "package.json"@
    ||| exists|k: int| 0 <= k < 6 && probes[6 + k] != PathKind::Missing && #[trigger] names[k] == x
}

/// The entry points: in lexicographic order without repeats, exactly the
/// expected ones (`expected_entry_point`); the target itself when none is
/// expected.
#[verifier::spinoff_prover]
pub proof fn law_entry_points(t: Seq<char>, probes: Seq<PathKind>)
    requires
        probes.len() == PROBE_COUNT,
    ensures
        ({
            let e = spec_entry_points(t, probes);
            &&& e.len() > 0
            &&& (exists|x: Seq<char>| #[trigger] expected_entry_point(t, probes, x)) ==> {
                &&& forall|x: Seq<char>| #[trigger] e.contains(x) <==> expected_entry_point(t, probes, x)
                &&& forall|k: int, l: int|
                    0 <= k < l < e.len() ==> str_le(#[trigger] e[k], #[trigger] e[l]) && e[k] != e[l]
            }
            &&& !(exists|x: Seq<char>| #[trigger] expected_entry_point(t, probes, x)) ==> e == seq![t]
        }),
{
    let st = spec_stack(t, probes);
    let base = base_entry_points(st);
    let flags = seq![
        has(probes, 6),
        has(probes, 7),
        has(probes, 8),
        has(probes, 9),
        has(probes, 10),
        has(probes, 11),
    ];
    let names = spec_probe_paths().subrange(6, 12);
    let disc = discovered_entry_points(probes);
    let all = base + disc;
    let so = sorted(all);
    let e0 = dedup(so);
    let lit = seq![
        "app"@,
        "src"@,
        "main.py"@,
        "app/__init__.py"@,
        "src/main.rs"@,
        "src/lib.rs"@,
    ];
    assert(names =~= lit);
    lemma_str_le_total_ordering();
    all.lemma_sort_by_ensures(str_leq());
    assert forall|i: int, j: int| 0 <= i < j < so.len() implies str_le(#[trigger] so[i], #[trigger] so[j]) by {
        assert(str_leq()(so[i], so[j]));
    }
    lemma_dedup_sorted(so);
    assert forall|x: Seq<char>| #[trigger] all.contains(x) <==> expected_entry_point(t, probes, x) by {
        lemma_present(names, flags, x);
        if all.contains(x) {
            let m = choose|m: int| 0 <= m < all.len() && all[m] == x;
            if m < base.len() {
                assert(base[m] == x);
            } else {
                assert(disc[m - base.len()] == x);
                assert(disc.contains(x));
                let k = choose|k: int| 0 <= k < names.len() && #[trigger] flags[k] && names[k] == x;
                assert(lit[k] == x);
            }
        }
        if expected_entry_point(t, probes, x) {
            if st == Stack::Rust && x == "Cargo.toml"@ {
                assert(all[0] == x);
            } else if st == Stack::Node && x == "package.json"@ {
                assert(all[0] == x);
            } else {
                let k = choose|k: int| 0 <= k < 6 && probes[6 + k] != PathKind::Missing && #[trigger] lit[k] == x;
                assert(flags[k] && names[k] == x);
                assert(disc.contains(x));
                let m = choose|m: int| 0 <= m < disc.len() && disc[m] == x;
                assert(all[base.len() + m] == x);
            }
        }
    }
    assert forall|x: Seq<char>| #[trigger] e0.contains(x) <==> all.contains(x) by {
        lemma_sorted_contains(all, x);
        if all.contains(x) {
            lemma_dedup_contains(so, x);
        }
    }
    if exists|x: Seq<char>| #[trigger] expected_entry_point(t, probes, x) {
        let x = choose|x: Seq<char>| #[trigger] expected_entry_point(t, probes, x);
        assert(all.contains(x));
        assert(e0.contains(x));
        assert(e0.len() > 0);
    } else {
        if e0.len() > 0 {
            assert(e0.contains(e0[0]));
            assert(expected_entry_point(t, probes, e0[0]));
        }
    }
}

/// Gathering fails with the error of the target's read when that read
/// failed, else with that of the adjacent file, else with that of the
/// canonical doc, and succeeds exactly when every read it made succeeded.
pub proof fn law_first_read_error(reads: GatherReads)
    ensures
        reads.target is Err ==> first_read_error(reads) == Some(reads.target->Err_0@),
        reads.target is Ok && reads.adjacent is Some && reads.adjacent->0 is Err
            ==> first_read_error(reads) == Some(reads.adjacent->0->Err_0@),
        reads.target is Ok && !(reads.adjacent is Some && reads.adjacent->0 is Err) && reads.doc is Some
            && reads.doc->0 is Err ==> first_read_error(reads) == Some(reads.doc->0->Err_0@),
        first_read_error(reads) is None <==> (reads.target is Ok && !(reads.adjacent is Some
            && reads.adjacent->0 is Err) && !(reads.doc is Some && reads.doc->0 is Err)),
{
}

} // verus!
