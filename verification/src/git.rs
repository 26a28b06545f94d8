use vstd::prelude::*;
use vstd::string::*;
use crate::repo::{CommitInfo, CommitInfoView, RepoInfo, RepoInfoView, RepoStatus};
use crate::text::{copy_of, push_char};
use crate::url::{github_coordinates, parse_github_url};
use crate::text::{chars_of, decimal, push_decimal, slice_of, string_of};

verus! {

/// How many characters of a commit's hash are shown.
pub const HASH_LEN: usize = 7;

/// How many commits of the history are shown.
pub const RECENT_COMMITS: usize = 20;

/// What `HEAD` points at.
#[derive(Debug, Clone, PartialEq, Eq)]
pub struct HeadRef {
    /// The commit it points at, as the hash in hexadecimal; none for a branch without
    /// commits.
    pub target: Option<String>,
    /// The short name of the branch it names.
    pub shorthand: Option<String>,
}

/// The mathematical value of a [`HeadRef`].
pub struct HeadRefView {
    pub target: Option<Seq<char>>,
    pub shorthand: Option<Seq<char>>,
}

impl View for HeadRef {
    type V = HeadRefView;

    open spec fn view(&self) -> HeadRefView {
        HeadRefView { target: self.target.deep_view(), shorthand: self.shorthand.deep_view() }
    }
}

impl DeepView for HeadRef {
    type V = HeadRefView;

    open spec fn deep_view(&self) -> HeadRefView {
        self@
    }
}

/// The first [`HASH_LEN`] characters of a hash, or all of a shorter one.
pub open spec fn short_hash(hash: Seq<char>) -> Seq<char> {
    if hash.len() > HASH_LEN {
        hash.take(HASH_LEN as int)
    } else {
        hash
    }
}

/// The name shown for the current branch. A detached `HEAD` shows as `detached@` and
/// the short hash of its commit, or as `detached` where it points at none; otherwise the
/// branch's short name is shown, or `HEAD` where there is none.
pub open spec fn branch_label(detached: bool, head: Option<HeadRefView>) -> Seq<char> {
    if detached {
        match head {
            Some(HeadRefView { target: Some(hash), .. }) => "detached@"@ + short_hash(hash),
            _ => "detached"@,
        }
    } else {
        match head {
            Some(HeadRefView { shorthand: Some(name), .. }) => name,
            _ => "HEAD"@,
        }
    }
}

/// How long ago `secs` was at the time `now`, both in seconds since the epoch: minutes
/// below an hour, hours below a day, days below thirty days, then months of thirty days.
/// Less than a minute, and any time ahead of `now`, reads `just now`.
pub open spec fn relative_date(secs: i64, now: i64) -> Seq<char> {
    let diff = now - secs;
    if diff < 60 {
        "just now"@
    } else if diff < 3600 {
        decimal((diff / 60) as nat) + "m ago"@
    } else if diff < 86400 {
        decimal((diff / 3600) as nat) + "h ago"@
    } else if diff < 2592000 {
        decimal((diff / 86400) as nat) + "d ago"@
    } else {
        decimal((diff / 2592000) as nat) + "mo ago"@
    }
}

/// The branch names that could be read, in the order given.
pub open spec fn readable_names(names: Seq<Option<Seq<char>>>) -> Seq<Seq<char>> {
    names.filter(|n: Option<Seq<char>>| n is Some).map_values(|n: Option<Seq<char>>| n->0)
}

/// The short form of a hash.
pub fn abbreviate(hash: &str) -> (r: String)
    ensures
        r@ == short_hash(hash@),
{
    let chars = chars_of(hash);
    if chars.len() > HASH_LEN {
        let head = slice_of(&chars, 0, HASH_LEN);
        assert(head@ =~= hash@.take(HASH_LEN as int));
        string_of(&head)
    } else {
        string_of(&chars)
    }
}

/// The name shown for the current branch.
pub fn get_current_branch(detached: bool, head: &Option<HeadRef>) -> (r: String)
    ensures
        r@ == branch_label(detached, head.deep_view()),
{
    if detached {
        if let Some(h) = head {
            if let Some(hash) = &h.target {
                let mut label = "detached@".to_owned();
                let short = abbreviate(hash.as_str());
                label.append(short.as_str());
                return label;
            }
        }
        return "detached".to_owned();
    }
    if let Some(h) = head {
        if let Some(name) = &h.shorthand {
            return name.clone();
        }
    }
    "HEAD".to_owned()
}

/// The names of the local branches that could be read.
pub fn list_branches(names: &Vec<Option<String>>) -> (r: Vec<String>)
    ensures
        r.deep_view() == readable_names(names.deep_view()),
{
    let ghost keep = |n: Option<Seq<char>>| n is Some;
    let ghost name_of = |n: Option<Seq<char>>| n->0;
    let mut r: Vec<String> = Vec::new();
    let mut i: usize = 0;
    assert(names.deep_view().take(0) =~= Seq::<Option<Seq<char>>>::empty());
    while i < names.len()
        invariant
            i <= names.len(),
            keep == |n: Option<Seq<char>>| n is Some,
            name_of == |n: Option<Seq<char>>| n->0,
            r.deep_view() == names.deep_view().take(i as int).filter(keep).map_values(name_of),
        decreases names.len() - i,
    {
        let ghost seen = names.deep_view().take(i as int);
        let ghost before = r.deep_view();
        proof {
            assert(names.deep_view().take(i + 1) =~= seen.push(names.deep_view()[i as int]));
            seen.lemma_filter_push(names.deep_view()[i as int], keep);
        }
        if let Some(name) = &names[i] {
            let copy = name.clone();
            r.push(copy);
            assert(r.deep_view() =~= before.push(copy@));
        }
        assert(r.deep_view() =~= names.deep_view().take(i + 1).filter(keep).map_values(name_of));
        i += 1;
    }
    assert(names.deep_view().take(names.len() as int) =~= names.deep_view());
    r
}

/// How long ago `secs` was at the time `now`, both in seconds since the epoch.
pub fn format_timestamp(secs: i64, now: i64) -> (r: String)
    ensures
        r@ == relative_date(secs, now),
{
    let diff: i128 = now as i128 - secs as i128;
    if diff < 60 {
        return "just now".to_owned();
    }
    let (count, unit): (i128, &str) = if diff < 3600 {
        (diff / 60, "m ago")
    } else if diff < 86400 {
        (diff / 3600, "h ago")
    } else if diff < 2592000 {
        (diff / 86400, "d ago")
    } else {
        (diff / 2592000, "mo ago")
    };
    let mut r = String::new();
    push_decimal(&mut r, count as u64);
    r.append(unit);
    assert(r@ =~= relative_date(secs, now));
    r
}

/// A status bit as git reports it: the file is in the index and not in the last commit.
pub const INDEX_NEW: u32 = 0x1;

/// A status bit: the file differs between the index and the last commit.
pub const INDEX_MODIFIED: u32 = 0x2;

/// A status bit: the file is in the last commit and not in the index.
pub const INDEX_DELETED: u32 = 0x4;

/// A status bit: the file was renamed between the last commit and the index.
pub const INDEX_RENAMED: u32 = 0x8;

/// A status bit: the file is in the working tree and not in the index.
pub const WT_NEW: u32 = 0x80;

/// A status bit: the file differs between the working tree and the index.
pub const WT_MODIFIED: u32 = 0x100;

/// A status bit: the file is in the index and not in the working tree.
pub const WT_DELETED: u32 = 0x200;

/// A status bit: the file was renamed between the index and the working tree.
pub const WT_RENAMED: u32 = 0x800;

/// The bits that make a file count as modified: changed or renamed, in the index or in
/// the working tree.
pub const MODIFIED_BITS: u32 = 0x90a;

/// The bits that make a file count as added.
pub const ADDED_BITS: u32 = 0x81;

/// The bits that make a file count as deleted.
pub const DELETED_BITS: u32 = 0x204;

/// One file of the status listing: its status bits and its path, where it can be read.
#[derive(Debug, Clone, PartialEq, Eq)]
pub struct StatusEntry {
    pub flags: u32,
    pub path: Option<String>,
}

/// The mathematical value of a [`StatusEntry`].
pub struct StatusEntryView {
    pub flags: u32,
    pub path: Option<Seq<char>>,
}

impl View for StatusEntry {
    type V = StatusEntryView;

    open spec fn view(&self) -> StatusEntryView {
        StatusEntryView { flags: self.flags, path: self.path.deep_view() }
    }
}

impl DeepView for StatusEntry {
    type V = StatusEntryView;

    open spec fn deep_view(&self) -> StatusEntryView {
        self@
    }
}

/// What a changed file counts as.
#[derive(Debug, Clone, Copy, PartialEq, Eq, Structural)]
pub enum ChangeKind {
    Modified,
    Added,
    Deleted,
}

/// What a file with the status bits `flags` counts as: modified before added before
/// deleted, so that no file counts twice; nothing where none of these bits is set.
pub open spec fn change_kind(flags: u32) -> Option<ChangeKind> {
    if flags & MODIFIED_BITS != 0 {
        Some(ChangeKind::Modified)
    } else if flags & ADDED_BITS != 0 {
        Some(ChangeKind::Added)
    } else if flags & DELETED_BITS != 0 {
        Some(ChangeKind::Deleted)
    } else {
        None
    }
}

/// The letter that stands for a kind of change.
pub open spec fn change_letter(kind: ChangeKind) -> char {
    match kind {
        ChangeKind::Modified => 'M',
        ChangeKind::Added => 'A',
        ChangeKind::Deleted => 'D',
    }
}

/// The test that a file counts as `kind`.
pub open spec fn counts_as(kind: ChangeKind) -> spec_fn(StatusEntryView) -> bool {
    |e: StatusEntryView| change_kind(e.flags) == Some(kind)
}

/// The test that a file counts as changed.
pub open spec fn is_changed() -> spec_fn(StatusEntryView) -> bool {
    |e: StatusEntryView| change_kind(e.flags) is Some
}

/// The line that lists a changed file: the letter of its kind, a blank, and its path, or
/// `?` for a path that cannot be read.
pub open spec fn change_line() -> spec_fn(StatusEntryView) -> Seq<char> {
    |e: StatusEntryView|
        seq![change_letter(change_kind(e.flags)->0), ' '] + match e.path {
            Some(path) => path,
            None => "?"@,
        }
}

/// How many files of the listing count as `kind`.
pub open spec fn count_of(entries: Seq<StatusEntryView>, kind: ChangeKind) -> nat {
    entries.filter(counts_as(kind)).len()
}

/// The status of a working tree with the listing `entries`: clean if and only if no file
/// counts as modified, added or deleted.
pub open spec fn status_of(entries: Seq<StatusEntryView>) -> RepoStatus {
    let modified = count_of(entries, ChangeKind::Modified);
    let added = count_of(entries, ChangeKind::Added);
    let deleted = count_of(entries, ChangeKind::Deleted);
    if modified == 0 && added == 0 && deleted == 0 {
        RepoStatus::Clean
    } else {
        RepoStatus::Dirty {
            modified: modified as usize,
            added: added as usize,
            deleted: deleted as usize,
        }
    }
}

/// The lines of the changed files, in the listing's order.
pub open spec fn changed_files_of(entries: Seq<StatusEntryView>) -> Seq<Seq<char>> {
    entries.filter(is_changed()).map_values(change_line())
}

/// What a file with the status bits `flags` counts as.
pub fn classify(flags: u32) -> (kind: Option<ChangeKind>)
    ensures
        kind == change_kind(flags),
{
    if flags & MODIFIED_BITS != 0 {
        Some(ChangeKind::Modified)
    } else if flags & ADDED_BITS != 0 {
        Some(ChangeKind::Added)
    } else if flags & DELETED_BITS != 0 {
        Some(ChangeKind::Deleted)
    } else {
        None
    }
}

/// The line that lists a changed file.
fn line_of(kind: ChangeKind, entry: &StatusEntry) -> (line: String)
    requires
        change_kind(entry.flags) == Some(kind),
    ensures
        line@ == change_line()(entry@),
{
    let mut line = String::new();
    push_char(
        &mut line,
        match kind {
            ChangeKind::Modified => 'M',
            ChangeKind::Added => 'A',
            ChangeKind::Deleted => 'D',
        },
    );
    push_char(&mut line, ' ');
    match &entry.path {
        Some(path) => line.append(path.as_str()),
        None => line.append("?"),
    }
    assert(line@ =~= change_line()(entry@));
    line
}

/// The status of a working tree and the lines of its changed files, from the status
/// listing. A listing that could not be read counts as a clean tree.
pub fn get_repo_status(statuses: &Option<Vec<StatusEntry>>) -> (r: (RepoStatus, Vec<String>))
    ensures
        r.0 == match statuses {
            Some(entries) => status_of(entries.deep_view()),
            None => RepoStatus::Clean,
        },
        r.1.deep_view() == match statuses {
            Some(entries) => changed_files_of(entries.deep_view()),
            None => Seq::empty(),
        },
{
    let entries = match statuses {
        Some(entries) => entries,
        None => {
            let none: Vec<String> = Vec::new();
            assert(none.deep_view() =~= Seq::<Seq<char>>::empty());
            return (RepoStatus::Clean, none);
        },
    };
    let ghost all = entries.deep_view();
    let mut modified: usize = 0;
    let mut added: usize = 0;
    let mut deleted: usize = 0;
    let mut changed_files: Vec<String> = Vec::new();
    let mut i: usize = 0;
    assert(all.take(0) =~= Seq::<StatusEntryView>::empty());
    while i < entries.len()
        invariant
            i <= entries.len(),
            all == entries.deep_view(),
            modified == count_of(all.take(i as int), ChangeKind::Modified),
            added == count_of(all.take(i as int), ChangeKind::Added),
            deleted == count_of(all.take(i as int), ChangeKind::Deleted),
            changed_files.deep_view() == changed_files_of(all.take(i as int)),
        decreases entries.len() - i,
    {
        let ghost seen = all.take(i as int);
        let ghost before = changed_files.deep_view();
        proof {
            assert(all.take(i + 1) =~= seen.push(all[i as int]));
            seen.lemma_filter_push(all[i as int], counts_as(ChangeKind::Modified));
            seen.lemma_filter_push(all[i as int], counts_as(ChangeKind::Added));
            seen.lemma_filter_push(all[i as int], counts_as(ChangeKind::Deleted));
            seen.lemma_filter_push(all[i as int], is_changed());
            seen.lemma_filter_len(counts_as(ChangeKind::Modified));
            seen.lemma_filter_len(counts_as(ChangeKind::Added));
            seen.lemma_filter_len(counts_as(ChangeKind::Deleted));
        }
        match classify(entries[i].flags) {
            Some(kind) => {
                match kind {
                    ChangeKind::Modified => {
                        modified += 1;
                    },
                    ChangeKind::Added => {
                        added += 1;
                    },
                    ChangeKind::Deleted => {
                        deleted += 1;
                    },
                }
                let line = line_of(kind, &entries[i]);
                changed_files.push(line);
                assert(changed_files.deep_view() =~= before.push(line@));
            },
            None => {},
        }
        assert(changed_files.deep_view() =~= changed_files_of(all.take(i + 1)));
        i += 1;
    }
    assert(all.take(entries.len() as int) =~= all);
    let status = if modified == 0 && added == 0 && deleted == 0 {
        RepoStatus::Clean
    } else {
        RepoStatus::Dirty { modified, added, deleted }
    };
    (status, changed_files)
}

/// One step of the walk through the history: the commit's hash in hexadecimal, and what
/// could be read of the commit, if it could be read at all.
#[derive(Debug, Clone, PartialEq, Eq)]
pub struct WalkEntry {
    pub id: String,
    pub commit: Option<CommitMeta>,
}

/// What is shown of a commit: the first line of its message, its author's name, and its
/// time in seconds since the epoch.
#[derive(Debug, Clone, PartialEq, Eq)]
pub struct CommitMeta {
    pub summary: Option<String>,
    pub author: Option<String>,
    pub time: i64,
}

/// The mathematical value of a [`CommitMeta`].
pub struct CommitMetaView {
    pub summary: Option<Seq<char>>,
    pub author: Option<Seq<char>>,
    pub time: i64,
}

/// The mathematical value of a [`WalkEntry`].
pub struct WalkEntryView {
    pub id: Seq<char>,
    pub commit: Option<CommitMetaView>,
}

impl View for CommitMeta {
    type V = CommitMetaView;

    open spec fn view(&self) -> CommitMetaView {
        CommitMetaView {
            summary: self.summary.deep_view(),
            author: self.author.deep_view(),
            time: self.time,
        }
    }
}

impl DeepView for CommitMeta {
    type V = CommitMetaView;

    open spec fn deep_view(&self) -> CommitMetaView {
        self@
    }
}

impl View for WalkEntry {
    type V = WalkEntryView;

    open spec fn view(&self) -> WalkEntryView {
        WalkEntryView { id: self.id@, commit: self.commit.deep_view() }
    }
}

impl DeepView for WalkEntry {
    type V = WalkEntryView;

    open spec fn deep_view(&self) -> WalkEntryView {
        self@
    }
}

/// The test that a step of the walk found its commit.
pub open spec fn was_read() -> spec_fn(WalkEntryView) -> bool {
    |e: WalkEntryView| e.commit is Some
}

/// A commit as the dashboard shows it at the time `now`.
pub open spec fn commit_shown(now: i64) -> spec_fn(WalkEntryView) -> CommitInfoView {
    |e: WalkEntryView|
        CommitInfoView {
            hash: short_hash(e.id),
            message: match e.commit->0.summary {
                Some(summary) => summary,
                None => Seq::empty(),
            },
            author: match e.commit->0.author {
                Some(author) => author,
                None => "unknown"@,
            },
            date: relative_date(e.commit->0.time, now),
        }
}

/// The commits shown: of the first `count` steps of the walk, those that found their
/// commit, newest first as the walk goes.
pub open spec fn recent_commits_of(walk: Seq<WalkEntryView>, count: usize, now: i64) -> Seq<
    CommitInfoView,
> {
    let first = if walk.len() > count {
        walk.take(count as int)
    } else {
        walk
    };
    first.filter(was_read()).map_values(commit_shown(now))
}

/// The commits shown, from the walk through the history.
pub fn get_recent_commits(walk: &Vec<WalkEntry>, count: usize, now: i64) -> (r: Vec<CommitInfo>)
    ensures
        r.deep_view() == recent_commits_of(walk.deep_view(), count, now),
{
    let limit = if walk.len() > count {
        count
    } else {
        walk.len()
    };
    let ghost all = walk.deep_view();
    let ghost first = if all.len() > count {
        all.take(count as int)
    } else {
        all
    };
    let mut r: Vec<CommitInfo> = Vec::new();
    let mut i: usize = 0;
    assert(first.take(0) =~= Seq::<WalkEntryView>::empty());
    while i < limit
        invariant
            i <= limit <= walk.len(),
            all == walk.deep_view(),
            first.len() == limit,
            forall|j: int| 0 <= j < limit ==> first[j] == all[j],
            r.deep_view() == first.take(i as int).filter(was_read()).map_values(commit_shown(now)),
        decreases limit - i,
    {
        let ghost seen = first.take(i as int);
        let ghost before = r.deep_view();
        proof {
            assert(first.take(i + 1) =~= seen.push(all[i as int]));
            seen.lemma_filter_push(all[i as int], was_read());
        }
        if let Some(meta) = &walk[i].commit {
            let commit = CommitInfo {
                hash: abbreviate(walk[i].id.as_str()),
                message: match &meta.summary {
                    Some(summary) => summary.clone(),
                    None => String::new(),
                },
                author: match &meta.author {
                    Some(author) => author.clone(),
                    None => "unknown".to_owned(),
                },
                date: format_timestamp(meta.time, now),
            };
            r.push(commit);
            assert(r.deep_view() =~= before.push(commit@));
        }
        assert(r.deep_view() =~= first.take(i + 1).filter(was_read()).map_values(
            commit_shown(now),
        ));
        i += 1;
    }
    assert(first.take(limit as int) =~= first);
    r
}

/// What was read of a repository on disk, before any of it is interpreted.
#[derive(Debug, Clone, PartialEq, Eq)]
pub struct RawRepo {
    /// The path that identifies the repository.
    pub path: String,
    /// The last component of the path, where it is readable text.
    pub dir_name: Option<String>,
    /// Whether `HEAD` is detached.
    pub detached: bool,
    /// What `HEAD` points at, where it resolves.
    pub head: Option<HeadRef>,
    /// The name of each local branch, where it is readable text.
    pub branches: Vec<Option<String>>,
    /// The status listing, where it could be read.
    pub statuses: Option<Vec<StatusEntry>>,
    /// The address of the remote `origin`, if there is one.
    pub remote_url: Option<String>,
    /// The walk through the history from `HEAD`, newest first; empty without commits.
    pub walk: Vec<WalkEntry>,
}

/// The mathematical value of a [`RawRepo`].
pub struct RawRepoView {
    pub path: Seq<char>,
    pub dir_name: Option<Seq<char>>,
    pub detached: bool,
    pub head: Option<HeadRefView>,
    pub branches: Seq<Option<Seq<char>>>,
    pub statuses: Option<Seq<StatusEntryView>>,
    pub remote_url: Option<Seq<char>>,
    pub walk: Seq<WalkEntryView>,
}

impl View for RawRepo {
    type V = RawRepoView;

    open spec fn view(&self) -> RawRepoView {
        RawRepoView {
            path: self.path@,
            dir_name: self.dir_name.deep_view(),
            detached: self.detached,
            head: self.head.deep_view(),
            branches: self.branches.deep_view(),
            statuses: self.statuses.deep_view(),
            remote_url: self.remote_url.deep_view(),
            walk: self.walk.deep_view(),
        }
    }
}

impl DeepView for RawRepo {
    type V = RawRepoView;

    open spec fn deep_view(&self) -> RawRepoView {
        self@
    }
}

/// The record of a repository at the time `now`, from what was read of it. Nothing is
/// known of GitHub yet: neither data nor an error.
pub open spec fn repo_info_of(raw: RawRepoView, now: i64) -> RepoInfoView {
    RepoInfoView {
        name: match raw.dir_name {
            Some(name) => name,
            None => "unknown"@,
        },
        path: raw.path,
        status: match raw.statuses {
            Some(entries) => status_of(entries),
            None => RepoStatus::Clean,
        },
        current_branch: branch_label(raw.detached, raw.head),
        branches: readable_names(raw.branches),
        remote_url: raw.remote_url,
        github_repo: match raw.remote_url {
            Some(url) => github_coordinates(url),
            None => None,
        },
        github_data: None,
        github_error: None,
        recent_commits: recent_commits_of(raw.walk, RECENT_COMMITS, now),
        changed_files: match raw.statuses {
            Some(entries) => changed_files_of(entries),
            None => Seq::empty(),
        },
    }
}

/// Interprets what was read of a repository: its name, status, branches, GitHub
/// coordinates and recent commits. A part that could not be read shows as empty.
pub fn analyze_repo_uncached(raw: &RawRepo, now: i64) -> (info: RepoInfo)
    ensures
        info@ == repo_info_of(raw@, now),
{
    let name = match &raw.dir_name {
        Some(name) => name.clone(),
        None => "unknown".to_owned(),
    };
    let current_branch = get_current_branch(raw.detached, &raw.head);
    let branches = list_branches(&raw.branches);
    let (status, changed_files) = get_repo_status(&raw.statuses);
    let remote_url = copy_of(&raw.remote_url);
    let github_repo = match &raw.remote_url {
        Some(url) => parse_github_url(url.as_str()),
        None => None,
    };
    let recent_commits = get_recent_commits(&raw.walk, RECENT_COMMITS, now);
    RepoInfo {
        name,
        path: raw.path.clone(),
        status,
        current_branch,
        branches,
        remote_url,
        github_repo,
        github_data: None,
        github_error: None,
        recent_commits,
        changed_files,
    }
}

/// Each status bit that the dashboard reads puts a file under one kind: a change or a
/// rename counts as modified, a new file as added, a missing file as deleted. A file
/// without any of these bits counts as unchanged.
pub proof fn law_status_bits_classify()
    ensures
        change_kind(WT_MODIFIED) == Some(ChangeKind::Modified),
        change_kind(INDEX_MODIFIED) == Some(ChangeKind::Modified),
        change_kind(WT_RENAMED) == Some(ChangeKind::Modified),
        change_kind(INDEX_RENAMED) == Some(ChangeKind::Modified),
        change_kind(WT_NEW) == Some(ChangeKind::Added),
        change_kind(INDEX_NEW) == Some(ChangeKind::Added),
        change_kind(WT_DELETED) == Some(ChangeKind::Deleted),
        change_kind(INDEX_DELETED) == Some(ChangeKind::Deleted),
        change_kind(0) is None,
        MODIFIED_BITS == WT_MODIFIED | INDEX_MODIFIED | WT_RENAMED | INDEX_RENAMED,
        ADDED_BITS == WT_NEW | INDEX_NEW,
        DELETED_BITS == WT_DELETED | INDEX_DELETED,
{
    assert(0x100u32 & 0x90au32 != 0) by (bit_vector);
    assert(0x2u32 & 0x90au32 != 0) by (bit_vector);
    assert(0x800u32 & 0x90au32 != 0) by (bit_vector);
    assert(0x8u32 & 0x90au32 != 0) by (bit_vector);
    assert(0x80u32 & 0x90au32 == 0 && 0x80u32 & 0x81u32 != 0) by (bit_vector);
    assert(0x1u32 & 0x90au32 == 0 && 0x1u32 & 0x81u32 != 0) by (bit_vector);
    assert(0x200u32 & 0x90au32 == 0 && 0x200u32 & 0x81u32 == 0 && 0x200u32 & 0x204u32 != 0)
        by (bit_vector);
    assert(0x4u32 & 0x90au32 == 0 && 0x4u32 & 0x81u32 == 0 && 0x4u32 & 0x204u32 != 0)
        by (bit_vector);
    assert(0u32 & 0x90au32 == 0 && 0u32 & 0x81u32 == 0 && 0u32 & 0x204u32 == 0) by (bit_vector);
    assert(0x90au32 == 0x100u32 | 0x2u32 | 0x800u32 | 0x8u32) by (bit_vector);
    assert(0x81u32 == 0x80u32 | 0x1u32) by (bit_vector);
    assert(0x204u32 == 0x200u32 | 0x4u32) by (bit_vector);
}

/// A listing of one file moves exactly one counter, the one of the file's kind, and
/// lists the file once, under the letter of that kind. A file that is unchanged moves
/// none: the tree is clean and nothing is listed.
pub proof fn law_one_file_one_counter(entry: StatusEntryView)
    ensures
        status_of(seq![entry]) == match change_kind(entry.flags) {
            Some(ChangeKind::Modified) => RepoStatus::Dirty { modified: 1, added: 0, deleted: 0 },
            Some(ChangeKind::Added) => RepoStatus::Dirty { modified: 0, added: 1, deleted: 0 },
            Some(ChangeKind::Deleted) => RepoStatus::Dirty { modified: 0, added: 0, deleted: 1 },
            None => RepoStatus::Clean,
        },
        changed_files_of(seq![entry]) == match change_kind(entry.flags) {
            Some(kind) => seq![change_line()(entry)],
            None => Seq::<Seq<char>>::empty(),
        },
        change_kind(entry.flags) matches Some(kind) ==> change_line()(entry)[0] == change_letter(
            kind,
        ),
{
    let none = Seq::<StatusEntryView>::empty();
    assert(seq![entry] =~= none.push(entry));
    none.lemma_filter_push(entry, counts_as(ChangeKind::Modified));
    none.lemma_filter_push(entry, counts_as(ChangeKind::Added));
    none.lemma_filter_push(entry, counts_as(ChangeKind::Deleted));
    none.lemma_filter_push(entry, is_changed());
    none.lemma_filter_len(counts_as(ChangeKind::Modified));
    none.lemma_filter_len(counts_as(ChangeKind::Added));
    none.lemma_filter_len(counts_as(ChangeKind::Deleted));
    none.lemma_filter_len(is_changed());
    assert(changed_files_of(seq![entry]) =~= match change_kind(entry.flags) {
        Some(kind) => seq![change_line()(entry)],
        None => Seq::<Seq<char>>::empty(),
    });
}

/// Every changed file is counted once and listed once: the three counters add up to the
/// number of lines.
pub proof fn law_counters_match_lines(entries: Seq<StatusEntryView>)
    ensures
        count_of(entries, ChangeKind::Modified) + count_of(entries, ChangeKind::Added) + count_of(
            entries,
            ChangeKind::Deleted,
        ) == changed_files_of(entries).len(),
        status_of(entries) is Clean <==> changed_files_of(entries).len() == 0,
    decreases entries.len(),
{
    if entries.len() == 0 {
        assert(entries.filter(counts_as(ChangeKind::Modified)).len() == 0) by {
            entries.lemma_filter_len(counts_as(ChangeKind::Modified));
        }
        assert(entries.filter(counts_as(ChangeKind::Added)).len() == 0) by {
            entries.lemma_filter_len(counts_as(ChangeKind::Added));
        }
        assert(entries.filter(counts_as(ChangeKind::Deleted)).len() == 0) by {
            entries.lemma_filter_len(counts_as(ChangeKind::Deleted));
        }
        assert(entries.filter(is_changed()).len() == 0) by {
            entries.lemma_filter_len(is_changed());
        }
    } else {
        let init = entries.drop_last();
        let last = entries.last();
        law_counters_match_lines(init);
        assert(entries =~= init.push(last));
        init.lemma_filter_push(last, counts_as(ChangeKind::Modified));
        init.lemma_filter_push(last, counts_as(ChangeKind::Added));
        init.lemma_filter_push(last, counts_as(ChangeKind::Deleted));
        init.lemma_filter_push(last, is_changed());
    }
}

/// The history shown never holds more commits than asked for.
pub proof fn law_history_is_bounded(walk: Seq<WalkEntryView>, count: usize, now: i64)
    ensures
        recent_commits_of(walk, count, now).len() <= count,
{
    let first = if walk.len() > count {
        walk.take(count as int)
    } else {
        walk
    };
    first.lemma_filter_len(was_read());
}

} // verus!
