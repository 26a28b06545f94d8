use vstd::prelude::*;
use vstd::string::*;
use crate::cache::{is_fresh, lookup, TtlCache};
use crate::git::{analyze_repo_uncached, repo_info_of, RawRepo, RawRepoView};
use crate::order::{sort_keyed, stable_sort, values_of};
use crate::repo::{RepoInfo, RepoInfoView};
use crate::text::{chars_of, lowercase_of, same_text, to_lowercase};

verus! {

/// The name is one of the directories that hold dependencies, build output, caches or
/// the user's media, none of which is searched for repositories.
pub open spec fn is_skipped_name(name: Seq<char>) -> bool {
    ||| name == "node_modules"@
    ||| name == "target"@
    ||| name == "build"@
    ||| name == "dist"@
    ||| name == "out"@
    ||| name == "vendor"@
    ||| name == "venv"@
    ||| name == ".venv"@
    ||| name == "__pycache__"@
    ||| name == "Pods"@
    ||| name == "DerivedData"@
    ||| name == ".gradle"@
    ||| name == ".cargo"@
    ||| name == ".rustup"@
    ||| name == "Library"@
    ||| name == "Applications"@
    ||| name == "Music"@
    ||| name == "Movies"@
    ||| name == "Pictures"@
    ||| name == "Photos"@
    ||| name == ".Trash"@
}

/// The name begins with a dot.
pub open spec fn is_hidden_name(name: Seq<char>) -> bool {
    name.len() > 0 && name[0] == '.'
}

/// A directory of this name is not entered.
pub open spec fn should_skip(name: Seq<char>) -> bool {
    is_hidden_name(name) || is_skipped_name(name)
}

/// Whether a directory of this name is left out of the search.
pub fn is_skipped(name: &str) -> (r: bool)
    ensures
        r == should_skip(name@),
{
    let chars = chars_of(name);
    if chars.len() > 0 && chars[0] == '.' {
        return true;
    }
    same_text(&chars, "node_modules") || same_text(&chars, "target") || same_text(&chars, "build")
        || same_text(&chars, "dist") || same_text(&chars, "out") || same_text(&chars, "vendor")
        || same_text(&chars, "venv") || same_text(&chars, ".venv") || same_text(
        &chars,
        "__pycache__",
    ) || same_text(&chars, "Pods") || same_text(&chars, "DerivedData") || same_text(
        &chars,
        ".gradle",
    ) || same_text(&chars, ".cargo") || same_text(&chars, ".rustup") || same_text(
        &chars,
        "Library",
    ) || same_text(&chars, "Applications") || same_text(&chars, "Music") || same_text(
        &chars,
        "Movies",
    ) || same_text(&chars, "Pictures") || same_text(&chars, "Photos") || same_text(
        &chars,
        ".Trash",
    )
}

/// One entry of a directory listing.
#[derive(Debug, Clone, PartialEq, Eq)]
pub struct DirEntry {
    /// The entry's name, where it is readable text.
    pub name: Option<String>,
    /// The entry's full path.
    pub path: String,
    /// Whether the entry is a directory.
    pub is_dir: bool,
    /// Whether the directory holds a `.git` entry, a directory or a file.
    pub is_repo: bool,
}

/// The mathematical value of a [`DirEntry`].
pub struct DirEntryView {
    pub name: Option<Seq<char>>,
    pub path: Seq<char>,
    pub is_dir: bool,
    pub is_repo: bool,
}

impl View for DirEntry {
    type V = DirEntryView;

    open spec fn view(&self) -> DirEntryView {
        DirEntryView {
            name: self.name.deep_view(),
            path: self.path@,
            is_dir: self.is_dir,
            is_repo: self.is_repo,
        }
    }
}

impl DeepView for DirEntry {
    type V = DirEntryView;

    open spec fn deep_view(&self) -> DirEntryView {
        self@
    }
}

/// A directory that the search has still to visit.
#[derive(Debug, Clone, PartialEq, Eq)]
pub struct PendingDir {
    pub path: String,
    pub is_repo: bool,
}

/// The mathematical value of a [`PendingDir`].
pub struct PendingDirView {
    pub path: Seq<char>,
    pub is_repo: bool,
}

impl View for PendingDir {
    type V = PendingDirView;

    open spec fn view(&self) -> PendingDirView {
        PendingDirView { path: self.path@, is_repo: self.is_repo }
    }
}

impl DeepView for PendingDir {
    type V = PendingDirView;

    open spec fn deep_view(&self) -> PendingDirView {
        self@
    }
}

/// The test that the search enters an entry: it is a directory, and its name is neither
/// hidden nor on the list of names left out. An entry without a readable name counts as
/// one with the empty name.
pub open spec fn is_entered() -> spec_fn(DirEntryView) -> bool {
    |e: DirEntryView|
        e.is_dir && !should_skip(
            match e.name {
                Some(name) => name,
                None => Seq::empty(),
            },
        )
}

/// An entry as a directory to visit.
pub open spec fn as_pending() -> spec_fn(DirEntryView) -> PendingDirView {
    |e: DirEntryView| PendingDirView { path: e.path, is_repo: e.is_repo }
}

/// The directories of a listing that the search enters, in the listing's order.
pub open spec fn entered(entries: Seq<DirEntryView>) -> Seq<PendingDirView> {
    entries.filter(is_entered()).map_values(as_pending())
}

/// Whether the search enters an entry.
pub fn should_descend(entry: &DirEntry) -> (r: bool)
    ensures
        r == is_entered()(entry@),
{
    if !entry.is_dir {
        return false;
    }
    match &entry.name {
        Some(name) => !is_skipped(name.as_str()),
        None => {
            let r = !is_skipped("");
            proof {
                reveal_strlit("");
            }
            assert(""@ =~= Seq::<char>::empty());
            r
        },
    }
}

/// A repository with the key by which the list is ordered: its name in lower case.
pub open spec fn with_name_key() -> spec_fn(RepoInfoView) -> (Seq<char>, RepoInfoView) {
    |r: RepoInfoView| (lowercase_of(r.name), r)
}

/// The repositories in the order of their names, compared without regard to case;
/// repositories whose names are equal in that order stay in the order in which the search
/// found them.
pub open spec fn sorted_by_name(repos: Seq<RepoInfoView>) -> Seq<RepoInfoView> {
    values_of(stable_sort(repos.map_values(with_name_key())))
}

/// Orders repositories by name, without regard to case.
pub fn sort_repos(repos: Vec<RepoInfo>) -> (r: Vec<RepoInfo>)
    ensures
        r.deep_view() == sorted_by_name(repos.deep_view()),
{
    let ghost all = repos.deep_view();
    let mut repos = repos;
    let mut keyed: Vec<(String, RepoInfo)> = Vec::new();
    let ghost mut done: int = 0;
    assert(keyed.deep_view() =~= all.take(0).map_values(with_name_key()));
    while repos.len() > 0
        invariant
            0 <= done <= all.len(),
            repos.deep_view() == all.skip(done),
            keyed.deep_view() == all.take(done).map_values(with_name_key()),
        decreases repos.len(),
    {
        let ghost before = repos@;
        let ghost before_view = repos.deep_view();
        let ghost before_keyed = keyed.deep_view();
        assert(before_view.len() == all.len() - done);
        let repo = repos.remove(0);
        assert(before_view[0] == repo@);
        assert forall|k: int| 0 <= k < repos.len() implies (#[trigger] repos.deep_view()[k])
            == all.skip(done + 1)[k] by {
            assert(repos@[k] == before[k + 1]);
            assert(before_view[k + 1] == all.skip(done)[k + 1]);
        }
        assert(repos.deep_view() =~= all.skip(done + 1));
        let key = to_lowercase(repo.name.as_str());
        let pair = (key, repo);
        keyed.push(pair);
        assert(keyed.deep_view() =~= before_keyed.push((key@, repo@)));
        assert(keyed.deep_view() =~= all.take(done + 1).map_values(with_name_key()));
        proof {
            done = done + 1;
        }
    }
    assert(all.take(done) =~= all);
    sort_keyed(keyed)
}

/// What the search asks its caller to do next.
#[derive(Debug, Clone, PartialEq, Eq)]
pub enum ScanRequest {
    /// List the directory at `path` and answer with [`Scanner::on_listed`]; a directory
    /// that cannot be read counts as empty.
    ListDir { path: String },
    /// Read the repository at `path` and answer with [`Scanner::on_analyzed`].
    Analyze { path: String },
    /// The search is over; these are the repositories found.
    Done(Vec<RepoInfo>),
}

/// The mathematical value of a [`ScanRequest`].
pub enum ScanRequestView {
    ListDir { path: Seq<char> },
    Analyze { path: Seq<char> },
    Done(Seq<RepoInfoView>),
}

impl View for ScanRequest {
    type V = ScanRequestView;

    open spec fn view(&self) -> ScanRequestView {
        match self {
            ScanRequest::ListDir { path } => ScanRequestView::ListDir { path: path@ },
            ScanRequest::Analyze { path } => ScanRequestView::Analyze { path: path@ },
            ScanRequest::Done(repos) => ScanRequestView::Done(repos.deep_view()),
        }
    }
}

/// The repository that is being read: its path, and whether it is the root of the search.
#[derive(Debug, Clone, PartialEq, Eq)]
pub struct Analysis {
    pub path: String,
    pub is_root: bool,
}

/// The mathematical value of an [`Analysis`].
pub struct AnalysisView {
    pub path: Seq<char>,
    pub is_root: bool,
}

impl View for Analysis {
    type V = AnalysisView;

    open spec fn view(&self) -> AnalysisView {
        AnalysisView { path: self.path@, is_root: self.is_root }
    }
}

impl DeepView for Analysis {
    type V = AnalysisView;

    open spec fn deep_view(&self) -> AnalysisView {
        self@
    }
}

/// A search for repositories through a directory tree, depth first. The search itself
/// reads nothing: it asks its caller to list a directory or to read a repository, and
/// goes on with the answer.
#[derive(Debug)]
pub struct Scanner {
    /// The directories still to visit, the next one first.
    pub pending: Vec<PendingDir>,
    /// The repositories found so far, in the order of the search.
    pub found: Vec<RepoInfo>,
    /// The repository that the caller was asked to read, if any.
    pub analyzing: Option<Analysis>,
}

/// The mathematical value of a [`Scanner`].
pub struct ScannerView {
    pub pending: Seq<PendingDirView>,
    pub found: Seq<RepoInfoView>,
    pub analyzing: Option<AnalysisView>,
}

impl View for Scanner {
    type V = ScannerView;

    open spec fn view(&self) -> ScannerView {
        ScannerView {
            pending: self.pending.deep_view(),
            found: self.found.deep_view(),
            analyzing: self.analyzing.deep_view(),
        }
    }
}

/// A search with nothing to visit and nothing found.
pub open spec fn idle() -> ScannerView {
    ScannerView { pending: Seq::empty(), found: Seq::empty(), analyzing: None }
}

/// The visit of one directory. A repository is taken from the cache where its entry is
/// fresh, else the caller is asked to read it. A repository is entered like any other
/// directory, since repositories can lie inside it.
pub open spec fn visit(
    s: ScannerView,
    dir: PendingDirView,
    cache: Map<Seq<char>, (RepoInfoView, u64)>,
    now: u64,
) -> (ScannerView, ScanRequestView) {
    if dir.is_repo {
        match lookup(cache, dir.path, now) {
            Some(info) => (
                ScannerView { found: s.found.push(info), ..s },
                ScanRequestView::ListDir { path: dir.path },
            ),
            None => (
                ScannerView {
                    analyzing: Some(AnalysisView { path: dir.path, is_root: false }),
                    ..s
                },
                ScanRequestView::Analyze { path: dir.path },
            ),
        }
    } else {
        (s, ScanRequestView::ListDir { path: dir.path })
    }
}

/// The search goes on: the next directory is visited, or, where none is left, the
/// repositories found are handed out in the order of their names.
pub open spec fn proceed(s: ScannerView, cache: Map<Seq<char>, (RepoInfoView, u64)>, now: u64) -> (
    ScannerView,
    ScanRequestView,
) {
    if s.pending.len() == 0 {
        (ScannerView { found: Seq::empty(), ..s }, ScanRequestView::Done(sorted_by_name(s.found)))
    } else {
        visit(ScannerView { pending: s.pending.drop_first(), ..s }, s.pending[0], cache, now)
    }
}

/// The start of a search at `root`. A root that is itself a repository is the only
/// result: it is taken from the cache or read, and nothing below it is searched.
pub open spec fn begin(
    root: Seq<char>,
    root_is_repo: bool,
    cache: Map<Seq<char>, (RepoInfoView, u64)>,
    now: u64,
) -> (ScannerView, ScanRequestView) {
    if root_is_repo {
        match lookup(cache, root, now) {
            Some(info) => (idle(), ScanRequestView::Done(seq![info])),
            None => (
                ScannerView {
                    analyzing: Some(AnalysisView { path: root, is_root: true }),
                    ..idle()
                },
                ScanRequestView::Analyze { path: root },
            ),
        }
    } else {
        (idle(), ScanRequestView::ListDir { path: root })
    }
}

/// The search after a directory was listed: the directories to enter are visited next,
/// in the listing's order, before those that were waiting.
pub open spec fn listed(
    s: ScannerView,
    entries: Seq<DirEntryView>,
    cache: Map<Seq<char>, (RepoInfoView, u64)>,
    now: u64,
) -> (ScannerView, ScanRequestView) {
    proceed(ScannerView { pending: entered(entries) + s.pending, ..s }, cache, now)
}

/// The repositories found, after a repository was read, or could not be read.
pub open spec fn found_after(s: ScannerView, raw: Option<RawRepoView>, epoch_now: i64) -> Seq<
    RepoInfoView,
> {
    match raw {
        Some(r) => s.found.push(repo_info_of(r, epoch_now)),
        None => s.found,
    }
}

/// The cache after a repository was read: what was read is written under the
/// repository's path with the time `now`. What could not be read leaves no trace.
pub open spec fn cache_after(
    cache: Map<Seq<char>, (RepoInfoView, u64)>,
    raw: Option<RawRepoView>,
    now: u64,
    epoch_now: i64,
) -> Map<Seq<char>, (RepoInfoView, u64)> {
    match raw {
        Some(r) => cache.insert(r.path, (repo_info_of(r, epoch_now), now)),
        None => cache,
    }
}

/// The search after a repository was read. After the root the search is over; after any
/// other repository its directory is listed.
pub open spec fn analyzed(
    s: ScannerView,
    raw: Option<RawRepoView>,
    cache: Map<Seq<char>, (RepoInfoView, u64)>,
    now: u64,
    epoch_now: i64,
) -> (ScannerView, ScanRequestView) {
    let found = found_after(s, raw, epoch_now);
    match s.analyzing {
        Some(a) => if a.is_root {
            (
                ScannerView { found: Seq::empty(), analyzing: None, ..s },
                ScanRequestView::Done(found),
            )
        } else {
            (
                ScannerView { found, analyzing: None, ..s },
                ScanRequestView::ListDir { path: a.path },
            )
        },
        None => proceed(ScannerView { found, ..s }, cache_after(cache, raw, now, epoch_now), now),
    }
}

/// What the scan cache holds for the repository at `path`, if it was written less than
/// an hour before `now`.
pub fn cached_repo(cache: &TtlCache<RepoInfo>, path: &String, now: u64) -> (r: Option<RepoInfo>)
    requires
        cache.wf(),
    ensures
        r.deep_view() == lookup(cache@, path@, now),
{
    match cache.get(path, now) {
        Some(info) => Some(info.duplicate()),
        None => None,
    }
}

/// Interprets what was read of a repository and writes the result into the scan cache
/// with the time `now`, over any entry that was there. `epoch_now` is the time of day
/// against which the commits' dates are told.
pub fn analyze_repo(cache: &mut TtlCache<RepoInfo>, raw: &RawRepo, now: u64, epoch_now: i64) -> (info:
    RepoInfo)
    requires
        old(cache).wf(),
    ensures
        final(cache).wf(),
        info@ == repo_info_of(raw@, epoch_now),
        final(cache)@ == cache_after(old(cache)@, Some(raw@), now, epoch_now),
{
    let info = analyze_repo_uncached(raw, epoch_now);
    cache.put(info.path.clone(), info.duplicate(), now);
    info
}

/// Empties the scan cache: the next search reads every repository anew.
pub fn invalidate_all_repo_caches(cache: &mut TtlCache<RepoInfo>)
    ensures
        final(cache).wf(),
        final(cache)@ == Map::<Seq<char>, (RepoInfoView, u64)>::empty(),
{
    cache.clear();
}

/// The directories of a listing that the search enters.
fn directories_to_enter(entries: &Vec<DirEntry>) -> (r: Vec<PendingDir>)
    ensures
        r.deep_view() == entered(entries.deep_view()),
{
    let ghost all = entries.deep_view();
    let mut r: Vec<PendingDir> = Vec::new();
    let mut i: usize = 0;
    assert(all.take(0) =~= Seq::<DirEntryView>::empty());
    while i < entries.len()
        invariant
            i <= entries.len(),
            all == entries.deep_view(),
            r.deep_view() == entered(all.take(i as int)),
        decreases entries.len() - i,
    {
        let ghost seen = all.take(i as int);
        let ghost before = r.deep_view();
        proof {
            assert(all.take(i + 1) =~= seen.push(all[i as int]));
            seen.lemma_filter_push(all[i as int], is_entered());
        }
        if should_descend(&entries[i]) {
            let dir = PendingDir { path: entries[i].path.clone(), is_repo: entries[i].is_repo };
            r.push(dir);
            assert(r.deep_view() =~= before.push(dir@));
        }
        assert(r.deep_view() =~= entered(all.take(i + 1)));
        i += 1;
    }
    assert(all.take(entries.len() as int) =~= all);
    r
}

impl Scanner {
    /// Visits one directory.
    fn visit(&mut self, dir: PendingDir, cache: &TtlCache<RepoInfo>, now: u64) -> (request:
        ScanRequest)
        requires
            cache.wf(),
        ensures
            final(self)@ == visit(old(self)@, dir@, cache@, now).0,
            request@ == visit(old(self)@, dir@, cache@, now).1,
    {
        if dir.is_repo {
            match cached_repo(cache, &dir.path, now) {
                Some(info) => {
                    let ghost before = self.found.deep_view();
                    self.found.push(info);
                    assert(self.found.deep_view() =~= before.push(info@));
                },
                None => {
                    self.analyzing = Some(Analysis { path: dir.path.clone(), is_root: false });
                    return ScanRequest::Analyze { path: dir.path };
                },
            }
        }
        ScanRequest::ListDir { path: dir.path }
    }

    /// Goes on with the next directory, or ends the search.
    fn proceed(&mut self, cache: &TtlCache<RepoInfo>, now: u64) -> (request: ScanRequest)
        requires
            cache.wf(),
        ensures
            final(self)@ == proceed(old(self)@, cache@, now).0,
            request@ == proceed(old(self)@, cache@, now).1,
    {
        if self.pending.len() == 0 {
            let mut found: Vec<RepoInfo> = Vec::new();
            std::mem::swap(&mut found, &mut self.found);
            assert(self.found.deep_view() =~= Seq::<RepoInfoView>::empty());
            assert(self@ =~~= proceed(old(self)@, cache@, now).0);
            return ScanRequest::Done(sort_repos(found));
        }
        let ghost before = self.pending.deep_view();
        let dir = self.pending.remove(0);
        assert(before[0] == dir@);
        assert(self.pending.deep_view() =~= before.drop_first());
        self.visit(dir, cache, now)
    }

    /// Takes the listing of the directory that was asked for and goes on. The
    /// directories to enter are visited next, in the listing's order.
    pub fn on_listed(&mut self, entries: Vec<DirEntry>, cache: &TtlCache<RepoInfo>, now: u64) -> (request:
        ScanRequest)
        requires
            cache.wf(),
        ensures
            final(self)@ == listed(old(self)@, entries.deep_view(), cache@, now).0,
            request@ == listed(old(self)@, entries.deep_view(), cache@, now).1,
    {
        let mut next = directories_to_enter(&entries);
        let ghost first = next.deep_view();
        let ghost rest = self.pending.deep_view();
        next.append(&mut self.pending);
        std::mem::swap(&mut next, &mut self.pending);
        assert(self.pending.deep_view() =~= first + rest);
        self.proceed(cache, now)
    }

    /// Takes what was read of the repository that was asked for, or nothing where it
    /// could not be read, and goes on. What was read is interpreted, written into the
    /// scan cache and added to the repositories found.
    pub fn on_analyzed(
        &mut self,
        raw: Option<RawRepo>,
        cache: &mut TtlCache<RepoInfo>,
        now: u64,
        epoch_now: i64,
    ) -> (request: ScanRequest)
        requires
            old(cache).wf(),
        ensures
            final(cache).wf(),
            final(cache)@ == cache_after(old(cache)@, raw.deep_view(), now, epoch_now),
            final(self)@ == analyzed(old(self)@, raw.deep_view(), old(cache)@, now, epoch_now).0,
            request@ == analyzed(old(self)@, raw.deep_view(), old(cache)@, now, epoch_now).1,
    {
        if let Some(r) = &raw {
            let info = analyze_repo(cache, r, now, epoch_now);
            let ghost before = self.found.deep_view();
            self.found.push(info);
            assert(self.found.deep_view() =~= before.push(info@));
        }
        let mut analyzing: Option<Analysis> = None;
        std::mem::swap(&mut analyzing, &mut self.analyzing);
        match analyzing {
            Some(a) => {
                if a.is_root {
                    let mut found: Vec<RepoInfo> = Vec::new();
                    std::mem::swap(&mut found, &mut self.found);
                    assert(self.found.deep_view() =~= Seq::<RepoInfoView>::empty());
                    assert(self@ =~~= analyzed(
                        old(self)@,
                        raw.deep_view(),
                        old(cache)@,
                        now,
                        epoch_now,
                    ).0);
                    ScanRequest::Done(found)
                } else {
                    ScanRequest::ListDir { path: a.path }
                }
            },
            None => self.proceed(cache, now),
        }
    }
}

/// Starts a search for repositories at `root`. `root_is_repo` tells whether the root
/// holds a `.git` entry; such a root is the only result and nothing below it is searched.
pub fn scan_directory(root: String, root_is_repo: bool, cache: &TtlCache<RepoInfo>, now: u64) -> (r: (
    Scanner,
    ScanRequest,
))
    requires
        cache.wf(),
    ensures
        r.0@ == begin(root@, root_is_repo, cache@, now).0,
        r.1@ == begin(root@, root_is_repo, cache@, now).1,
{
    let mut scanner = Scanner { pending: Vec::new(), found: Vec::new(), analyzing: None };
    assert(scanner.pending.deep_view() =~= Seq::<PendingDirView>::empty());
    assert(scanner.found.deep_view() =~= Seq::<RepoInfoView>::empty());
    assert(scanner@ =~~= idle());
    if root_is_repo {
        match cached_repo(cache, &root, now) {
            Some(info) => {
                let mut repos: Vec<RepoInfo> = Vec::new();
                repos.push(info);
                assert(repos.deep_view() =~= seq![info@]);
                (scanner, ScanRequest::Done(repos))
            },
            None => {
                scanner.analyzing = Some(Analysis { path: root.clone(), is_root: true });
                (scanner, ScanRequest::Analyze { path: root })
            },
        }
    } else {
        (scanner, ScanRequest::ListDir { path: root })
    }
}

/// A root that is itself a repository is the only result, whatever lies below it: the
/// search never asks for a listing, and it is over as soon as the root was read. The
/// result holds the root alone, or nothing where the root could not be read.
pub proof fn law_repository_root_is_scanned_alone(
    root: Seq<char>,
    cache: Map<Seq<char>, (RepoInfoView, u64)>,
    now: u64,
    raw: Option<RawRepoView>,
    later: u64,
    epoch_now: i64,
)
    ensures
        match lookup(cache, root, now) {
            Some(info) => begin(root, true, cache, now).1 == ScanRequestView::Done(seq![info]),
            None => {
                &&& begin(root, true, cache, now).1 == ScanRequestView::Analyze { path: root }
                &&& analyzed(begin(root, true, cache, now).0, raw, cache, later, epoch_now).1
                    == ScanRequestView::Done(
                    match raw {
                        Some(r) => seq![repo_info_of(r, epoch_now)],
                        None => Seq::empty(),
                    },
                )
            },
        },
{
    if lookup(cache, root, now) is None {
        let s = begin(root, true, cache, now).0;
        assert(found_after(s, raw, epoch_now) =~= match raw {
            Some(r) => seq![repo_info_of(r, epoch_now)],
            None => Seq::empty(),
        });
    }
}

/// A repository that was read is not read again within the hour: once its record is in
/// the cache, a visit of its directory adds that very record to the result and asks for
/// the listing, not for the repository; and a search that starts at it is over at once.
pub proof fn law_fresh_repository_is_not_read_again(
    s: ScannerView,
    raw: RawRepoView,
    cache: Map<Seq<char>, (RepoInfoView, u64)>,
    now: u64,
    epoch_now: i64,
    later: u64,
)
    requires
        is_fresh(now, later),
    ensures
        ({
            let written = cache_after(cache, Some(raw), now, epoch_now);
            let info = repo_info_of(raw, epoch_now);
            let dir = PendingDirView { path: raw.path, is_repo: true };
            &&& lookup(written, raw.path, later) == Some(info)
            &&& visit(s, dir, written, later) == (
                ScannerView { found: s.found.push(info), ..s },
                ScanRequestView::ListDir { path: raw.path },
            )
            &&& begin(raw.path, true, written, later).1 == ScanRequestView::Done(seq![info])
        }),
{
}

/// With the scan cache emptied, every repository is read anew.
pub proof fn law_empty_cache_serves_nothing(s: ScannerView, dir: PendingDirView, now: u64)
    requires
        dir.is_repo,
    ensures
        visit(s, dir, Map::<Seq<char>, (RepoInfoView, u64)>::empty(), now).1
            == (ScanRequestView::Analyze { path: dir.path }),
{
}

/// A directory that is skipped or hidden is never visited, and neither is a file.
pub proof fn law_skipped_entries_are_not_entered(entries: Seq<DirEntryView>, i: int)
    requires
        0 <= i < entered(entries).len(),
    ensures
        exists|j: int|
            0 <= j < entries.len() && is_entered()(#[trigger] entries[j]) && as_pending()(
                entries[j],
            ) == entered(entries)[i],
{
    let kept = entries.filter(is_entered());
    entries.lemma_filter_pred(is_entered(), i);
    assert(kept.contains(kept[i]));
    entries.lemma_filter_contains_rev(is_entered(), kept[i]);
    let j = choose|j: int| 0 <= j < entries.len() && entries[j] == kept[i];
    assert(is_entered()(entries[j]));
}

} // verus!
