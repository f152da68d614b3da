//! Application settings, the recent-projects list, AI provider defaults and
//! the placement rules of the chapter tree.

use vstd::prelude::*;

use crate::storage::paths::{components, depth_below, depth_below_root};
use crate::text::{chars_eq, chars_of, decimal, decimal_chars, ends_with, has_prefix, has_suffix, is_blank, is_blank_str, push_chars, push_str, starts_with, string_of, trimmed, trim};

verus! {

/// A recently opened project.
#[derive(Debug, Clone, PartialEq, Eq)]
pub struct RecentProject {
    pub path: String,
    pub title: String,
    /// Milliseconds since the Unix epoch.
    pub last_opened: i64,
}

/// Connection settings of the AI assistant, shared by all projects.
#[derive(Debug, Clone, PartialEq, Eq)]
pub struct AiSettings {
    /// `deepseek`, `kimi`, `ollama`, `vllm` or `local`.
    pub provider: String,
    pub api_key: String,
    pub base_url: String,
    /// Free-form model id.
    pub model: String,
}

/// The default base URL of each known provider.
pub open spec fn base_url_for(provider: Seq<char>) -> Option<Seq<char>> {
    if provider == "deepseek"@ {
        Some("https://api.deepseek.com"@)
    } else if provider == "kimi"@ {
        Some("https://api.moonshot.cn/v1"@)
    } else if provider == "ollama"@ {
        Some("http://127.0.0.1:11434"@)
    } else if provider == "vllm"@ {
        Some("http://127.0.0.1:8000"@)
    } else if provider == "local"@ {
        Some("http://127.0.0.1:8080"@)
    } else {
        None
    }
}

/// The base URL filled in when the provider is switched; none for an
/// unknown provider.
pub fn default_base_url_for_provider(provider: &str) -> (r: Option<String>)
    ensures
        r matches Some(u) ==> base_url_for(provider@) == Some(u@),
        r is None ==> base_url_for(provider@) is None,
{
    let p = chars_of(provider);
    let url: &str = if chars_eq(&p, &chars_of("deepseek")) {
        "https://api.deepseek.com"
    } else if chars_eq(&p, &chars_of("kimi")) {
        "https://api.moonshot.cn/v1"
    } else if chars_eq(&p, &chars_of("ollama")) {
        "http://127.0.0.1:11434"
    } else if chars_eq(&p, &chars_of("vllm")) {
        "http://127.0.0.1:8000"
    } else if chars_eq(&p, &chars_of("local")) {
        "http://127.0.0.1:8080"
    } else {
        return None;
    };
    Some(String::from_str(url))
}

impl Default for AiSettings {
    /// DeepSeek with its default base URL, no key and no model.
    fn default() -> (r: Self)
        ensures
            r.provider@ == "deepseek"@,
            r.api_key@.len() == 0,
            r.base_url@ == "https://api.deepseek.com"@,
            r.model@.len() == 0,
    {
        AiSettings {
            provider: String::from_str("deepseek"),
            api_key: String::new(),
            base_url: String::from_str("https://api.deepseek.com"),
            model: String::new(),
        }
    }
}

/// The providers offered in the settings: `(id, display name)`.
pub fn ai_providers() -> (r: Vec<(&'static str, &'static str)>)
    ensures
        r@ == seq![
            ("deepseek", "DeepSeek"),
            ("kimi", "Kimi"),
            ("ollama", "Ollama"),
            ("vllm", "vLLM"),
            ("local", "Local"),
        ],
{
    let mut v = Vec::new();
    v.push(("deepseek", "DeepSeek"));
    v.push(("kimi", "Kimi"));
    v.push(("ollama", "Ollama"));
    v.push(("vllm", "vLLM"));
    v.push(("local", "Local"));
    v
}

/// Why settings cannot be saved.
#[derive(Debug, Clone, Copy, PartialEq, Eq, Structural)]
pub enum SettingsError {
    ProjectsRootEmpty,
    BaseUrlScheme,
}

impl SettingsError {
    pub open spec fn spec_message(self) -> &'static str {
        match self {
            SettingsError::ProjectsRootEmpty => "projects_root must not be empty",
            SettingsError::BaseUrlScheme => "base_url must start with http:// or https://",
        }
    }

    /// A one-line description of the refusal.
    pub fn message(self) -> (r: &'static str)
        ensures
            r == self.spec_message(),
    {
        match self {
            SettingsError::ProjectsRootEmpty => "projects_root must not be empty",
            SettingsError::BaseUrlScheme => "base_url must start with http:// or https://",
        }
    }
}

/// Whether a URL starts with an HTTP scheme.
pub open spec fn http_url(s: Seq<char>) -> bool {
    has_prefix(s, "http://"@) || has_prefix(s, "https://"@)
}

/// Settings may be saved when the projects root is not blank and the
/// trimmed base URL is empty or starts with `http://` or `https://`.
pub fn validate_settings_save(projects_root: &str, base_url: &str) -> (r: Result<(), SettingsError>)
    ensures
        is_blank(projects_root@) ==> r == Err::<(), SettingsError>(SettingsError::ProjectsRootEmpty),
        !is_blank(projects_root@) && trimmed(base_url@).len() > 0 && !http_url(trimmed(base_url@))
            ==> r == Err::<(), SettingsError>(SettingsError::BaseUrlScheme),
        !is_blank(projects_root@) && (trimmed(base_url@).len() == 0 || http_url(trimmed(base_url@)))
            ==> r is Ok,
{
    if is_blank_str(projects_root) {
        return Err(SettingsError::ProjectsRootEmpty);
    }
    let url = trim(base_url);
    if !url.as_str().is_empty() && !(starts_with(url.as_str(), "http://") || starts_with(url.as_str(), "https://")) {
        return Err(SettingsError::BaseUrlScheme);
    }
    Ok(())
}

/// The application configuration.
#[derive(Debug, Clone, PartialEq, Eq)]
pub struct AppConfig {
    pub projects_root: String,
    pub recent_projects: Vec<RecentProject>,
    pub max_recent: usize,
    pub ai: AiSettings,
}

impl Default for AppConfig {
    /// Projects under `~/Documents/Novels`, no recent projects, at most ten
    /// of them, default AI settings.
    fn default() -> (r: Self)
        ensures
            r.projects_root@ == "~/Documents/Novels"@,
            r.recent_projects@.len() == 0,
            r.max_recent == 10,
            r.ai.provider@ == "deepseek"@,
            r.ai.api_key@.len() == 0,
            r.ai.base_url@ == "https://api.deepseek.com"@,
            r.ai.model@.len() == 0,
    {
        AppConfig {
            projects_root: String::from_str("~/Documents/Novels"),
            recent_projects: Vec::new(),
            max_recent: 10,
            ai: AiSettings::default(),
        }
    }
}

/// The entries whose path differs from `path`, in order.
pub open spec fn without_path(s: Seq<RecentProject>, path: Seq<char>) -> Seq<RecentProject>
    decreases s.len(),
{
    if s.len() == 0 {
        Seq::empty()
    } else if s.last().path@ == path {
        without_path(s.drop_last(), path)
    } else {
        without_path(s.drop_last(), path).push(s.last())
    }
}

/// Number of leading entries opened at `t` or later.
pub open spec fn insert_position(sorted: Seq<RecentProject>, t: i64) -> int
    decreases sorted.len(),
{
    if sorted.len() == 0 || sorted[0].last_opened < t {
        0
    } else {
        1 + insert_position(sorted.drop_first(), t)
    }
}

/// Stable sort, newest first: each entry in turn goes after the entries
/// opened at the same time or later.
pub open spec fn sort_newest_first(s: Seq<RecentProject>) -> Seq<RecentProject>
    decreases s.len(),
{
    if s.len() == 0 {
        Seq::empty()
    } else {
        let sorted = sort_newest_first(s.drop_last());
        sorted.insert(insert_position(sorted, s.last().last_opened), s.last())
    }
}

/// Entries ordered newest first.
pub open spec fn newest_first(s: Seq<RecentProject>) -> bool {
    forall|i: int, j: int| 0 <= i < j < s.len() ==> s[i].last_opened >= s[j].last_opened
}

proof fn lemma_insert_position(sorted: Seq<RecentProject>, t: i64)
    requires
        newest_first(sorted),
    ensures
        0 <= insert_position(sorted, t) <= sorted.len(),
        forall|i: int| 0 <= i < insert_position(sorted, t) ==> sorted[i].last_opened >= t,
        forall|i: int| insert_position(sorted, t) <= i < sorted.len() ==> sorted[i].last_opened < t,
    decreases sorted.len(),
{
    if sorted.len() > 0 && sorted[0].last_opened >= t {
        let rest = sorted.drop_first();
        assert(newest_first(rest)) by {
            assert forall|i: int, j: int| 0 <= i < j < rest.len() implies rest[i].last_opened >= rest[j].last_opened by {
                assert(rest[i] == sorted[i + 1] && rest[j] == sorted[j + 1]);
            }
        }
        lemma_insert_position(rest, t);
        assert forall|i: int| 1 <= i < insert_position(sorted, t) implies sorted[i].last_opened >= t by {
            assert(sorted[i] == rest[i - 1]);
        }
        assert forall|i: int| insert_position(sorted, t) <= i < sorted.len() implies sorted[i].last_opened < t by {
            assert(sorted[i] == rest[i - 1]);
        }
    }
}

/// The sort puts the newest entries first and keeps the entries.
pub proof fn lemma_sort_newest_first(s: Seq<RecentProject>)
    ensures
        newest_first(sort_newest_first(s)),
        sort_newest_first(s).len() == s.len(),
    decreases s.len(),
{
    if s.len() > 0 {
        let sorted = sort_newest_first(s.drop_last());
        lemma_sort_newest_first(s.drop_last());
        let t = s.last().last_opened;
        lemma_insert_position(sorted, t);
        let p = insert_position(sorted, t);
        let r = sorted.insert(p, s.last());
        assert forall|i: int, j: int| 0 <= i < j < r.len() implies r[i].last_opened >= r[j].last_opened by {
            if j < p {
            } else if j == p {
            } else if i < p {
            } else if i == p {
            } else {
            }
        }
    }
}

/// The most entries the recent list keeps.
pub open spec fn recent_limit(max_recent: usize) -> int {
    max_recent as int
}

/// The list after opening `path`: earlier entries for the same path are
/// dropped, the new entry added, the list sorted newest first (stable) and
/// cut to the limit.
pub open spec fn recent_after_open(s: Seq<RecentProject>, entry: RecentProject, max_recent: usize) -> Seq<RecentProject> {
    let sorted = sort_newest_first(without_path(s, entry.path@).push(entry));
    if sorted.len() > recent_limit(max_recent) {
        sorted.take(recent_limit(max_recent))
    } else {
        sorted
    }
}

fn drop_path(list: Vec<RecentProject>, path: &String) -> (r: Vec<RecentProject>)
    ensures
        r@ == without_path(list@, path@),
{
    let mut list = list;
    let ghost orig = list@;
    let total = list.len();
    assert(orig.len() == total);
    assert(orig.skip(0) =~= orig);
    let mut kept: Vec<RecentProject> = Vec::new();
    let mut taken: usize = 0;
    while list.len() > 0
        invariant
            taken + list@.len() == orig.len(),
            orig.len() <= usize::MAX,
            list@ == orig.skip(taken as int),
            kept@ == without_path(orig.take(taken as int), path@),
        decreases list.len(),
    {
        let item = list.remove(0);
        proof {
            assert(orig.take(taken + 1).drop_last() =~= orig.take(taken as int));
            assert(orig.take(taken + 1).last() == item);
            assert(list@ =~= orig.skip(taken + 1));
        }
        if item.path != *path {
            kept.push(item);
        }
        taken = taken + 1;
    }
    assert(orig.take(orig.len() as int) =~= orig);
    kept
}

fn sort_recent(list: Vec<RecentProject>) -> (r: Vec<RecentProject>)
    ensures
        r@ == sort_newest_first(list@),
{
    let mut list = list;
    let ghost orig = list@;
    let total = list.len();
    assert(orig.len() == total);
    assert(orig.skip(0) =~= orig);
    let mut sorted: Vec<RecentProject> = Vec::new();
    let mut taken: usize = 0;
    while list.len() > 0
        invariant
            taken + list@.len() == orig.len(),
            orig.len() <= usize::MAX,
            list@ == orig.skip(taken as int),
            sorted@ == sort_newest_first(orig.take(taken as int)),
        decreases list.len(),
    {
        let item = list.remove(0);
        proof {
            assert(orig.take(taken + 1).drop_last() =~= orig.take(taken as int));
            assert(orig.take(taken + 1).last() == item);
            assert(list@ =~= orig.skip(taken + 1));
        }
        let mut p: usize = 0;
        assert(sorted@.skip(0) =~= sorted@);
        while p < sorted.len() && sorted[p].last_opened >= item.last_opened
            invariant
                p <= sorted@.len(),
                insert_position(sorted@, item.last_opened) == p + insert_position(sorted@.skip(p as int), item.last_opened),
            decreases sorted.len() - p,
        {
            proof {
                assert(sorted@.skip(p as int).drop_first() =~= sorted@.skip(p + 1));
            }
            p = p + 1;
        }
        proof {
            assert(insert_position(sorted@.skip(p as int), item.last_opened) == 0);
        }
        sorted.insert(p, item);
        taken = taken + 1;
    }
    assert(orig.take(orig.len() as int) =~= orig);
    sorted
}

/// Records that the project at `path` was opened at `last_opened`: earlier
/// entries for the same path are replaced, the list is ordered newest first
/// (entries opened at the same time keep their order) and holds at most
/// `max_recent` entries. Nothing on disk is touched.
pub fn add_recent_project(config: &mut AppConfig, path: String, title: String, last_opened: i64)
    ensures
        final(config).projects_root == old(config).projects_root,
        final(config).max_recent == old(config).max_recent,
        final(config).ai == old(config).ai,
        exists|entry: RecentProject|
            entry.path@ == path@ && entry.title@ == title@ && entry.last_opened == last_opened
                && final(config).recent_projects@ == recent_after_open(
                old(config).recent_projects@,
                entry,
                old(config).max_recent,
            ),
        newest_first(final(config).recent_projects@),
        final(config).recent_projects@.len() <= recent_limit(old(config).max_recent),
{
    let mut list: Vec<RecentProject> = Vec::new();
    std::mem::swap(&mut list, &mut config.recent_projects);
    let mut kept = drop_path(list, &path);
    let entry = RecentProject { path, title, last_opened };
    let ghost e = entry;
    kept.push(entry);
    let mut sorted = sort_recent(kept);
    sorted.truncate(config.max_recent);
    config.recent_projects = sorted;
    proof {
        assert(config.recent_projects@ =~= recent_after_open(old(config).recent_projects@, e, old(config).max_recent));
        lemma_sort_newest_first(without_path(old(config).recent_projects@, e.path@).push(e));
        let all = sort_newest_first(without_path(old(config).recent_projects@, e.path@).push(e));
        assert forall|i: int, j: int| 0 <= i < j < config.recent_projects@.len() implies config.recent_projects@[i].last_opened >= config.recent_projects@[j].last_opened by {
            assert(config.recent_projects@[i] == all[i] && config.recent_projects@[j] == all[j]);
        }
    }
}

/// Forgets the project at `path` (nothing on disk is touched).
pub fn remove_recent_project(config: &mut AppConfig, path: &str)
    ensures
        final(config).projects_root == old(config).projects_root,
        final(config).max_recent == old(config).max_recent,
        final(config).ai == old(config).ai,
        final(config).recent_projects@ == without_path(old(config).recent_projects@, path@),
{
    let mut list: Vec<RecentProject> = Vec::new();
    std::mem::swap(&mut list, &mut config.recent_projects);
    let p = String::from_str(path);
    config.recent_projects = drop_path(list, &p);
}

#[verifier::external_type_specification]
#[verifier::external_body]
pub struct ExIoErrorKind(std::io::ErrorKind);

/// One entry of a directory listing, as the tree rules see it.
#[derive(Debug, Clone, PartialEq, Eq)]
pub struct EntryInfo {
    /// The file or folder name.
    pub name: String,
    pub is_dir: bool,
    pub is_file: bool,
}

/// Names that start with a dot are hidden and ignored by the tree.
pub open spec fn is_hidden(name: Seq<char>) -> bool {
    name.len() > 0 && name[0] == '.'
}

/// A visible directory.
pub open spec fn entry_is_dir(e: EntryInfo) -> bool {
    !is_hidden(e.name@) && e.is_dir
}

/// A visible `.json` file (a chapter or screenplay).
pub open spec fn entry_is_json_file(e: EntryInfo) -> bool {
    !is_hidden(e.name@) && !e.is_dir && e.is_file && has_suffix(e.name@, ".json"@)
}

/// Whether the listing holds a visible directory.
pub open spec fn has_dir_entry(es: Seq<EntryInfo>) -> bool {
    exists|i: int| 0 <= i < es.len() && entry_is_dir(#[trigger] es[i])
}

/// Whether the listing holds a visible `.json` file.
pub open spec fn has_json_entry(es: Seq<EntryInfo>) -> bool {
    exists|i: int| 0 <= i < es.len() && entry_is_json_file(#[trigger] es[i])
}

/// Whether a name is hidden (starts with a dot).
pub fn name_is_hidden(name: &str) -> (r: bool)
    ensures
        r == is_hidden(name@),
{
    let c = chars_of(name);
    c.len() > 0 && c[0] == '.'
}

/// Whether a listing holds visible subdirectories and visible `.json`
/// files: `(has_dirs, has_files)`.
pub fn classify_entries(entries: &Vec<EntryInfo>) -> (r: (bool, bool))
    ensures
        r.0 == has_dir_entry(entries@),
        r.1 == has_json_entry(entries@),
{
    let mut has_dirs = false;
    let mut has_files = false;
    let mut i: usize = 0;
    while i < entries.len()
        invariant
            i <= entries@.len(),
            has_dirs == exists|k: int| 0 <= k < i && entry_is_dir(#[trigger] entries@[k]),
            has_files == exists|k: int| 0 <= k < i && entry_is_json_file(#[trigger] entries@[k]),
        decreases entries.len() - i,
    {
        let e = &entries[i];
        if !name_is_hidden(&e.name) {
            if e.is_dir {
                has_dirs = true;
            } else if e.is_file && ends_with(&e.name, ".json") {
                has_files = true;
            }
        }
        proof {
            if entry_is_dir(entries@[i as int]) {
                assert(has_dirs);
            }
            if entry_is_json_file(entries@[i as int]) {
                assert(has_files);
            }
        }
        i = i + 1;
    }
    (has_dirs, has_files)
}

/// What a directory that might receive a new child holds.
#[derive(Debug, PartialEq, Eq)]
pub enum DirProbe {
    /// The directory does not exist yet.
    Missing,
    /// The directory's entries.
    Entries(Vec<EntryInfo>),
    /// Reading the directory failed.
    Unreadable(std::io::ErrorKind),
}

/// Why a node cannot be placed in the tree.
#[derive(Debug, Clone, Copy, PartialEq, Eq)]
pub enum RuleViolation {
    /// A directory cannot hold both subdirectories and `.json` files.
    MixedChildren,
    /// The node would lie deeper than the project's `max_depth`.
    MaxDepthExceeded { attempted: u32, max_depth: u32 },
    /// The parent path is not inside the tree's root.
    OutsideChaptersRoot,
    /// Inspecting a directory failed.
    Io(std::io::ErrorKind),
}

impl RuleViolation {
    /// A one-line description of the violation.
    pub fn message(&self) -> (r: String)
        ensures
            (*self matches RuleViolation::MixedChildren) ==> r@ == "directory cannot mix subdirectories and chapter files"@,
            (*self matches RuleViolation::MaxDepthExceeded { attempted, max_depth } ==> r@ == "depth "@
                + decimal(attempted as nat) + " exceeds max_depth "@ + decimal(max_depth as nat)),
            (*self matches RuleViolation::OutsideChaptersRoot) ==> r@ == "path is outside the chapters root"@,
            (*self matches RuleViolation::Io(_)) ==> has_prefix(r@, "failed to inspect directory: "@),
    {
        match self {
            RuleViolation::MixedChildren => String::from_str("directory cannot mix subdirectories and chapter files"),
            RuleViolation::MaxDepthExceeded { attempted, max_depth } => {
                let mut v: Vec<char> = Vec::new();
                push_str(&mut v, "depth ");
                let a = decimal_chars(*attempted as usize);
                push_chars(&mut v, &a);
                push_str(&mut v, " exceeds max_depth ");
                let m = decimal_chars(*max_depth as usize);
                push_chars(&mut v, &m);
                string_of(v.as_slice())
            },
            RuleViolation::OutsideChaptersRoot => String::from_str("path is outside the chapters root"),
            RuleViolation::Io(kind) => {
                let mut v: Vec<char> = Vec::new();
                push_str(&mut v, "failed to inspect directory: ");
                let ghost head = v@;
                let k = chars_of(&error_kind_text(*kind));
                push_chars(&mut v, &k);
                assert(v@.take(head.len() as int) =~= head);
                string_of(v.as_slice())
            },
        }
    }
}

/// The text of an I/O error kind (its `Display`). Nothing is stated of it.
#[verifier::external_body]
fn error_kind_text(kind: std::io::ErrorKind) -> String {
    kind.to_string()
}

/// What is being placed under a parent directory.
#[derive(Debug, Clone, Copy, PartialEq, Eq, Structural)]
pub enum PlacementKind {
    Directory,
    Chapter,
}

/// The verdict on placing a new directory or chapter file under
/// `parent_dir`: the parent must lie under `root`; the new node's depth
/// (components below the root, plus one) must not exceed `max_depth`; a
/// parent that does not exist yet takes anything; otherwise a directory may
/// not join `.json` files and a chapter may not join subdirectories.
pub open spec fn placement_verdict(
    root: Seq<char>,
    parent_dir: Seq<char>,
    max_depth: u32,
    kind: PlacementKind,
    probe: DirProbe,
) -> Result<(), RuleViolation> {
    match depth_below(root, parent_dir) {
        None => Err(RuleViolation::OutsideChaptersRoot),
        Some(d) => if d + 1 > max_depth {
            Err(RuleViolation::MaxDepthExceeded { attempted: (d + 1) as u32, max_depth })
        } else {
            match probe {
                DirProbe::Missing => Ok(()),
                DirProbe::Unreadable(k) => Err(RuleViolation::Io(k)),
                DirProbe::Entries(es) => if kind == PlacementKind::Directory && has_json_entry(es@) {
                    Err(RuleViolation::MixedChildren)
                } else if kind == PlacementKind::Chapter && has_dir_entry(es@) {
                    Err(RuleViolation::MixedChildren)
                } else {
                    Ok(())
                },
            }
        },
    }
}

fn check_placement(
    root: &str,
    parent_dir: &str,
    max_depth: u32,
    kind: PlacementKind,
    probe: &DirProbe,
) -> (r: Result<(), RuleViolation>)
    requires
        components(parent_dir@).len() < u32::MAX,
    ensures
        r == placement_verdict(root@, parent_dir@, max_depth, kind, *probe),
{
    let depth = match depth_below_root(root, parent_dir) {
        None => return Err(RuleViolation::OutsideChaptersRoot),
        Some(d) => d,
    };
    let attempted: u32 = (depth + 1) as u32;
    if attempted > max_depth {
        return Err(RuleViolation::MaxDepthExceeded { attempted, max_depth });
    }
    match probe {
        DirProbe::Missing => Ok(()),
        DirProbe::Unreadable(k) => Err(RuleViolation::Io(*k)),
        DirProbe::Entries(es) => {
            let (has_dirs, has_files) = classify_entries(es);
            match kind {
                PlacementKind::Directory => if has_files {
                    Err(RuleViolation::MixedChildren)
                } else {
                    Ok(())
                },
                PlacementKind::Chapter => if has_dirs {
                    Err(RuleViolation::MixedChildren)
                } else {
                    Ok(())
                },
            }
        },
    }
}

/// Whether a new directory may be created under `parent_dir` inside the
/// tree rooted at `chapters_root`, given what `parent_dir` holds.
pub fn check_can_create_directory(
    chapters_root: &str,
    parent_dir: &str,
    max_depth: u32,
    probe: &DirProbe,
) -> (r: Result<(), RuleViolation>)
    requires
        components(parent_dir@).len() < u32::MAX,
    ensures
        r == placement_verdict(chapters_root@, parent_dir@, max_depth, PlacementKind::Directory, *probe),
{
    check_placement(chapters_root, parent_dir, max_depth, PlacementKind::Directory, probe)
}

/// Whether a new chapter file may be created under `parent_dir` inside the
/// tree rooted at `chapters_root`, given what `parent_dir` holds.
pub fn check_can_create_chapter(
    chapters_root: &str,
    parent_dir: &str,
    max_depth: u32,
    probe: &DirProbe,
) -> (r: Result<(), RuleViolation>)
    requires
        components(parent_dir@).len() < u32::MAX,
    ensures
        r == placement_verdict(chapters_root@, parent_dir@, max_depth, PlacementKind::Chapter, *probe),
{
    check_placement(chapters_root, parent_dir, max_depth, PlacementKind::Chapter, probe)
}

} // verus!
