use vstd::prelude::*;
use crate::cache::{is_fresh, lookup};
use crate::git::{repo_info_of, RawRepoView};
use crate::repo::RepoInfoView;
use crate::scan::{
    analyzed, begin, cache_after, entered, found_after, listed, proceed, sorted_by_name, visit,
    AnalysisView, DirEntryView, PendingDirView, ScanRequestView, ScannerView,
};

verus! {

/// What the disk answers to a search: the listing of each directory that can be read,
/// and what is read of each repository that can be read.
pub struct Disk {
    pub listings: Map<Seq<char>, Seq<DirEntryView>>,
    pub repos: Map<Seq<char>, RawRepoView>,
}

impl Disk {
    /// The entries of the directory at `path`; none for one that cannot be read.
    pub open spec fn list(self, path: Seq<char>) -> Seq<DirEntryView> {
        if self.listings.contains_key(path) {
            self.listings[path]
        } else {
            Seq::empty()
        }
    }

    /// What is read of the repository at `path`, if it can be read.
    pub open spec fn read(self, path: Seq<char>) -> Option<RawRepoView> {
        if self.repos.contains_key(path) {
            Some(self.repos[path])
        } else {
            None
        }
    }

    /// What is read at a path carries that path.
    pub open spec fn wf(self) -> bool {
        forall|p: Seq<char>| self.repos.contains_key(p) ==> (#[trigger] self.repos[p]).path == p
    }
}

/// A search carried through against a disk, for at most `fuel` requests, with the clock
/// standing still: the repositories it hands out, or nothing if it has not ended by then.
pub open spec fn run(
    disk: Disk,
    s: ScannerView,
    request: ScanRequestView,
    cache: Map<Seq<char>, (RepoInfoView, u64)>,
    now: u64,
    epoch_now: i64,
    fuel: nat,
) -> Option<Seq<RepoInfoView>>
    decreases fuel,
{
    match request {
        ScanRequestView::Done(repos) => Some(repos),
        ScanRequestView::ListDir { path } => if fuel == 0 {
            None
        } else {
            let next = listed(s, disk.list(path), cache, now);
            run(disk, next.0, next.1, cache, now, epoch_now, (fuel - 1) as nat)
        },
        ScanRequestView::Analyze { path } => if fuel == 0 {
            None
        } else {
            let raw = disk.read(path);
            let next = analyzed(s, raw, cache, now, epoch_now);
            run(
                disk,
                next.0,
                next.1,
                cache_after(cache, raw, now, epoch_now),
                now,
                epoch_now,
                (fuel - 1) as nat,
            )
        },
    }
}

/// The record of the repository at `path` as a search finds it: the cached one where the
/// cache holds a fresh entry, else what is read from the disk, if it can be read.
pub open spec fn record(
    disk: Disk,
    cache: Map<Seq<char>, (RepoInfoView, u64)>,
    path: Seq<char>,
    now: u64,
    epoch_now: i64,
) -> Option<RepoInfoView> {
    match lookup(cache, path, now) {
        Some(info) => Some(info),
        None => match disk.read(path) {
            Some(raw) => Some(repo_info_of(raw, epoch_now)),
            None => None,
        },
    }
}

/// What a directory itself adds to the result: its record, if it is a repository that
/// can be read or is cached.
pub open spec fn found_at(
    disk: Disk,
    cache: Map<Seq<char>, (RepoInfoView, u64)>,
    dir: PendingDirView,
    now: u64,
    epoch_now: i64,
) -> Seq<RepoInfoView> {
    if dir.is_repo {
        match record(disk, cache, dir.path, now, epoch_now) {
            Some(info) => seq![info],
            None => Seq::empty(),
        }
    } else {
        Seq::empty()
    }
}

/// The repositories at and below the directories `dirs`, down to `depth` levels below
/// them: each directory's own record first, then what lies inside it, then what the
/// directories after it yield. Only directories that the search enters count.
pub open spec fn below(
    disk: Disk,
    cache: Map<Seq<char>, (RepoInfoView, u64)>,
    dirs: Seq<PendingDirView>,
    now: u64,
    epoch_now: i64,
    depth: nat,
) -> Seq<RepoInfoView>
    decreases depth, dirs.len(),
{
    if dirs.len() == 0 {
        Seq::empty()
    } else {
        let inside = if depth == 0 {
            Seq::empty()
        } else {
            below(
                disk,
                cache,
                entered(disk.list(dirs[0].path)),
                now,
                epoch_now,
                (depth - 1) as nat,
            )
        };
        found_at(disk, cache, dirs[0], now, epoch_now) + inside + below(
            disk,
            cache,
            dirs.drop_first(),
            now,
            epoch_now,
            depth,
        )
    }
}

/// The tree below the directories `dirs` is at most `depth` levels deep: at that depth
/// no directory holds another that the search enters.
pub open spec fn settles(disk: Disk, dirs: Seq<PendingDirView>, depth: nat) -> bool
    decreases depth, dirs.len(),
{
    if dirs.len() == 0 {
        true
    } else {
        let inner = entered(disk.list(dirs[0].path));
        &&& if depth == 0 {
            inner.len() == 0
        } else {
            settles(disk, inner, (depth - 1) as nat)
        }
        &&& settles(disk, dirs.drop_first(), depth)
    }
}

/// A tree that is at most `depth` levels deep is at most `depth + 1` levels deep, and
/// looking one level deeper finds nothing more.
pub proof fn lemma_deeper(
    disk: Disk,
    cache: Map<Seq<char>, (RepoInfoView, u64)>,
    dirs: Seq<PendingDirView>,
    now: u64,
    epoch_now: i64,
    depth: nat,
)
    requires
        settles(disk, dirs, depth),
    ensures
        settles(disk, dirs, depth + 1),
        below(disk, cache, dirs, now, epoch_now, depth + 1) == below(
            disk,
            cache,
            dirs,
            now,
            epoch_now,
            depth,
        ),
    decreases depth, dirs.len(),
{
    if dirs.len() > 0 {
        let inner = entered(disk.list(dirs[0].path));
        lemma_deeper(disk, cache, dirs.drop_first(), now, epoch_now, depth);
        if depth > 0 {
            lemma_deeper(disk, cache, inner, now, epoch_now, (depth - 1) as nat);
            assert(((depth - 1) as nat + 1) as nat == depth);
        } else {
            assert(settles(disk, inner, 0));
            assert(below(disk, cache, inner, now, epoch_now, 0) =~= Seq::<RepoInfoView>::empty());
        }
        assert(((depth + 1) - 1) as nat == depth);
    }
}

/// What lies below two lists of directories is what lies below the first, then what lies
/// below the second.
pub proof fn lemma_concat(
    disk: Disk,
    cache: Map<Seq<char>, (RepoInfoView, u64)>,
    a: Seq<PendingDirView>,
    b: Seq<PendingDirView>,
    now: u64,
    epoch_now: i64,
    depth: nat,
)
    ensures
        settles(disk, a + b, depth) == (settles(disk, a, depth) && settles(disk, b, depth)),
        below(disk, cache, a + b, now, epoch_now, depth) == below(
            disk,
            cache,
            a,
            now,
            epoch_now,
            depth,
        ) + below(disk, cache, b, now, epoch_now, depth),
    decreases a.len(),
{
    if a.len() == 0 {
        assert(a + b =~= b);
        assert(below(disk, cache, a, now, epoch_now, depth) + below(
            disk,
            cache,
            b,
            now,
            epoch_now,
            depth,
        ) =~= below(disk, cache, b, now, epoch_now, depth));
    } else {
        assert((a + b).drop_first() =~= a.drop_first() + b);
        assert((a + b)[0] == a[0]);
        lemma_concat(disk, cache, a.drop_first(), b, now, epoch_now, depth);
        assert(below(disk, cache, a + b, now, epoch_now, depth) =~= below(
            disk,
            cache,
            a,
            now,
            epoch_now,
            depth,
        ) + below(disk, cache, b, now, epoch_now, depth));
    }
}

/// Visiting the first directory and putting the directories inside it in front of the
/// rest leaves the same repositories to find.
pub proof fn lemma_visit_first(
    disk: Disk,
    cache: Map<Seq<char>, (RepoInfoView, u64)>,
    dirs: Seq<PendingDirView>,
    now: u64,
    epoch_now: i64,
    depth: nat,
)
    requires
        dirs.len() > 0,
        settles(disk, dirs, depth),
    ensures
        settles(disk, entered(disk.list(dirs[0].path)) + dirs.drop_first(), depth),
        below(disk, cache, dirs, now, epoch_now, depth) == found_at(
            disk,
            cache,
            dirs[0],
            now,
            epoch_now,
        ) + below(
            disk,
            cache,
            entered(disk.list(dirs[0].path)) + dirs.drop_first(),
            now,
            epoch_now,
            depth,
        ),
{
    let inner = entered(disk.list(dirs[0].path));
    let rest = dirs.drop_first();
    let here = found_at(disk, cache, dirs[0], now, epoch_now);
    lemma_concat(disk, cache, inner, rest, now, epoch_now, depth);
    if depth == 0 {
        assert(inner + rest =~= rest);
        assert(below(disk, cache, dirs, now, epoch_now, depth) =~= here + below(
            disk,
            cache,
            rest,
            now,
            epoch_now,
            depth,
        ));
    } else {
        lemma_deeper(disk, cache, inner, now, epoch_now, (depth - 1) as nat);
        assert(below(disk, cache, dirs, now, epoch_now, depth) =~= here + (below(
            disk,
            cache,
            inner,
            now,
            epoch_now,
            depth,
        ) + below(disk, cache, rest, now, epoch_now, depth)));
    }
}

/// What a request promises of the search that goes on from it, if that search ends.
pub open spec fn expected(
    disk: Disk,
    first_cache: Map<Seq<char>, (RepoInfoView, u64)>,
    s: ScannerView,
    request: ScanRequestView,
    now: u64,
    epoch_now: i64,
    depth: nat,
) -> Seq<RepoInfoView> {
    match request {
        ScanRequestView::Done(repos) => repos,
        ScanRequestView::ListDir { path } => sorted_by_name(
            s.found + below(
                disk,
                first_cache,
                entered(disk.list(path)) + s.pending,
                now,
                epoch_now,
                depth,
            ),
        ),
        ScanRequestView::Analyze { path } => sorted_by_name(
            found_after(s, disk.read(path), epoch_now) + below(
                disk,
                first_cache,
                entered(disk.list(path)) + s.pending,
                now,
                epoch_now,
                depth,
            ),
        ),
    }
}

/// The state of a search is one that the search itself brings about on the way down
/// from a root that is no repository.
pub open spec fn on_the_way(
    disk: Disk,
    s: ScannerView,
    request: ScanRequestView,
    cache: Map<Seq<char>, (RepoInfoView, u64)>,
    now: u64,
    depth: nat,
) -> bool {
    match request {
        ScanRequestView::Done(repos) => true,
        ScanRequestView::ListDir { path } => {
            &&& s.analyzing is None
            &&& settles(disk, entered(disk.list(path)) + s.pending, depth)
        },
        ScanRequestView::Analyze { path } => {
            &&& s.analyzing == Some(AnalysisView { path, is_root: false })
            &&& lookup(cache, path, now) is None
            &&& settles(disk, entered(disk.list(path)) + s.pending, depth)
        },
    }
}

/// The cache answers as the cache at the start of the search did, or with what the
/// search has read since.
pub open spec fn same_records(
    disk: Disk,
    cache: Map<Seq<char>, (RepoInfoView, u64)>,
    first_cache: Map<Seq<char>, (RepoInfoView, u64)>,
    now: u64,
    epoch_now: i64,
) -> bool {
    forall|p: Seq<char>| #[trigger]
        record(disk, cache, p, now, epoch_now) == record(disk, first_cache, p, now, epoch_now)
}

/// From any state on the way, a search that ends hands out what its request promises.
pub proof fn lemma_run(
    disk: Disk,
    first_cache: Map<Seq<char>, (RepoInfoView, u64)>,
    s: ScannerView,
    request: ScanRequestView,
    cache: Map<Seq<char>, (RepoInfoView, u64)>,
    now: u64,
    epoch_now: i64,
    depth: nat,
    fuel: nat,
)
    requires
        disk.wf(),
        same_records(disk, cache, first_cache, now, epoch_now),
        on_the_way(disk, s, request, cache, now, depth),
        run(disk, s, request, cache, now, epoch_now, fuel) is Some,
    ensures
        run(disk, s, request, cache, now, epoch_now, fuel) == Some(
            expected(disk, first_cache, s, request, now, epoch_now, depth),
        ),
    decreases fuel,
{
    match request {
        ScanRequestView::Done(repos) => {},
        ScanRequestView::ListDir { path } => {
            let dirs = entered(disk.list(path)) + s.pending;
            let state = ScannerView { pending: dirs, ..s };
            let next = proceed(state, cache, now);
            if dirs.len() == 0 {
                assert(s.found + below(disk, first_cache, dirs, now, epoch_now, depth)
                    =~= s.found);
            } else {
                let dir = dirs[0];
                lemma_visit_first(disk, first_cache, dirs, now, epoch_now, depth);
                let rest_dirs = entered(disk.list(dir.path)) + dirs.drop_first();
                let rest = below(disk, first_cache, rest_dirs, now, epoch_now, depth);
                assert(record(disk, cache, dir.path, now, epoch_now) == record(
                    disk,
                    first_cache,
                    dir.path,
                    now,
                    epoch_now,
                ));
                assert(next == visit(
                    ScannerView { pending: dirs.drop_first(), ..state },
                    dir,
                    cache,
                    now,
                ));
                lemma_run(
                    disk,
                    first_cache,
                    next.0,
                    next.1,
                    cache,
                    now,
                    epoch_now,
                    depth,
                    (fuel - 1) as nat,
                );
                let here = found_at(disk, first_cache, dir, now, epoch_now);
                assert(s.found + (here + rest) =~= (s.found + here) + rest);
                if dir.is_repo {
                    match lookup(cache, dir.path, now) {
                        Some(info) => {
                            assert(s.found.push(info) =~= s.found + here);
                        },
                        None => {
                            assert(found_after(next.0, disk.read(dir.path), epoch_now)
                                =~= s.found + here);
                        },
                    }
                } else {
                    assert(s.found + here =~= s.found);
                }
            }
        },
        ScanRequestView::Analyze { path } => {
            let raw = disk.read(path);
            let next = analyzed(s, raw, cache, now, epoch_now);
            let written = cache_after(cache, raw, now, epoch_now);
            assert(same_records(disk, written, first_cache, now, epoch_now)) by {
                assert forall|p: Seq<char>| #[trigger]
                    record(disk, written, p, now, epoch_now) == record(
                        disk,
                        first_cache,
                        p,
                        now,
                        epoch_now,
                    ) by {
                    assert(record(disk, cache, p, now, epoch_now) == record(
                        disk,
                        first_cache,
                        p,
                        now,
                        epoch_now,
                    ));
                    if let Some(r) = raw {
                        assert(r.path == path);
                    }
                }
            }
            lemma_run(
                disk,
                first_cache,
                next.0,
                next.1,
                written,
                now,
                epoch_now,
                depth,
                (fuel - 1) as nat,
            );
        },
    }
}

/// A search from a root that is no repository hands out, if it ends, the repositories
/// that lie below the root wherever the search enters, each where the search comes
/// past it, in the order of their names. The root itself is not among them.
pub proof fn law_search_finds_what_lies_below(
    disk: Disk,
    root: Seq<char>,
    cache: Map<Seq<char>, (RepoInfoView, u64)>,
    now: u64,
    epoch_now: i64,
    depth: nat,
    fuel: nat,
)
    requires
        disk.wf(),
        settles(disk, entered(disk.list(root)), depth),
        run(
            disk,
            begin(root, false, cache, now).0,
            begin(root, false, cache, now).1,
            cache,
            now,
            epoch_now,
            fuel,
        ) is Some,
    ensures
        run(
            disk,
            begin(root, false, cache, now).0,
            begin(root, false, cache, now).1,
            cache,
            now,
            epoch_now,
            fuel,
        ) == Some(
            sorted_by_name(
                below(disk, cache, entered(disk.list(root)), now, epoch_now, depth),
            ),
        ),
{
    let start = begin(root, false, cache, now);
    let dirs = entered(disk.list(root));
    assert(dirs + start.0.pending =~= dirs);
    lemma_run(disk, cache, start.0, start.1, cache, now, epoch_now, depth, fuel);
    assert(start.0.found + below(disk, cache, dirs, now, epoch_now, depth) =~= below(
        disk,
        cache,
        dirs,
        now,
        epoch_now,
        depth,
    ));
}

/// The directories that a search visits at and below the directories `dirs`, down to
/// `depth` levels below them, in the order of the visits.
pub open spec fn visited(disk: Disk, dirs: Seq<PendingDirView>, depth: nat) -> Seq<PendingDirView>
    decreases depth, dirs.len(),
{
    if dirs.len() == 0 {
        Seq::empty()
    } else {
        let inside = if depth == 0 {
            Seq::empty()
        } else {
            visited(disk, entered(disk.list(dirs[0].path)), (depth - 1) as nat)
        };
        seq![dirs[0]] + inside + visited(disk, dirs.drop_first(), depth)
    }
}

/// Looking one level deeper than a tree goes visits the same directories.
pub proof fn lemma_visited_deeper(disk: Disk, dirs: Seq<PendingDirView>, depth: nat)
    requires
        settles(disk, dirs, depth),
    ensures
        visited(disk, dirs, depth + 1) == visited(disk, dirs, depth),
    decreases depth, dirs.len(),
{
    if dirs.len() > 0 {
        let inner = entered(disk.list(dirs[0].path));
        lemma_visited_deeper(disk, dirs.drop_first(), depth);
        if depth > 0 {
            lemma_visited_deeper(disk, inner, (depth - 1) as nat);
            assert(((depth - 1) as nat + 1) as nat == depth);
        } else {
            assert(visited(disk, inner, 0) =~= Seq::<PendingDirView>::empty());
        }
        assert(((depth + 1) - 1) as nat == depth);
    }
}

/// The visits of two lists of directories are those of the first, then those of the
/// second.
pub proof fn lemma_visited_concat(
    disk: Disk,
    a: Seq<PendingDirView>,
    b: Seq<PendingDirView>,
    depth: nat,
)
    ensures
        visited(disk, a + b, depth) == visited(disk, a, depth) + visited(disk, b, depth),
    decreases a.len(),
{
    if a.len() == 0 {
        assert(a + b =~= b);
        assert(visited(disk, a, depth) + visited(disk, b, depth) =~= visited(disk, b, depth));
    } else {
        assert((a + b).drop_first() =~= a.drop_first() + b);
        assert((a + b)[0] == a[0]);
        lemma_visited_concat(disk, a.drop_first(), b, depth);
        assert(visited(disk, a + b, depth) =~= visited(disk, a, depth) + visited(
            disk,
            b,
            depth,
        ));
    }
}

/// The visits of a list of directories are the first directory, then the visits of what
/// lies inside it and of the rest.
pub proof fn lemma_visited_first(disk: Disk, dirs: Seq<PendingDirView>, depth: nat)
    requires
        dirs.len() > 0,
        settles(disk, dirs, depth),
    ensures
        visited(disk, dirs, depth) == seq![dirs[0]] + visited(
            disk,
            entered(disk.list(dirs[0].path)) + dirs.drop_first(),
            depth,
        ),
{
    let inner = entered(disk.list(dirs[0].path));
    let rest = dirs.drop_first();
    lemma_visited_concat(disk, inner, rest, depth);
    if depth == 0 {
        assert(inner + rest =~= rest);
        assert(visited(disk, dirs, depth) =~= seq![dirs[0]] + visited(disk, rest, depth));
    } else {
        lemma_visited_deeper(disk, inner, (depth - 1) as nat);
        assert(visited(disk, dirs, depth) =~= seq![dirs[0]] + (visited(disk, inner, depth)
            + visited(disk, rest, depth)));
    }
}

/// The number of directories that a search visits at and below the directories `dirs`,
/// down to `depth` levels below them.
pub open spec fn visits(disk: Disk, dirs: Seq<PendingDirView>, depth: nat) -> nat {
    visited(disk, dirs, depth).len()
}

/// The requests that a search on the way still makes at most: two for each directory to
/// visit, one to read it and one to list it.
pub open spec fn requests_left(disk: Disk, s: ScannerView, request: ScanRequestView, depth: nat) -> nat {
    match request {
        ScanRequestView::Done(repos) => 0,
        ScanRequestView::ListDir { path } => 1 + 2 * visits(
            disk,
            entered(disk.list(path)) + s.pending,
            depth,
        ),
        ScanRequestView::Analyze { path } => 2 + 2 * visits(
            disk,
            entered(disk.list(path)) + s.pending,
            depth,
        ),
    }
}

/// From any state on the way, a search through a tree of bounded depth ends.
pub proof fn lemma_run_ends(
    disk: Disk,
    s: ScannerView,
    request: ScanRequestView,
    cache: Map<Seq<char>, (RepoInfoView, u64)>,
    now: u64,
    epoch_now: i64,
    depth: nat,
    fuel: nat,
)
    requires
        on_the_way(disk, s, request, cache, now, depth),
        fuel >= requests_left(disk, s, request, depth),
    ensures
        run(disk, s, request, cache, now, epoch_now, fuel) is Some,
    decreases fuel,
{
    match request {
        ScanRequestView::Done(repos) => {},
        ScanRequestView::ListDir { path } => {
            let dirs = entered(disk.list(path)) + s.pending;
            let state = ScannerView { pending: dirs, ..s };
            let next = proceed(state, cache, now);
            if dirs.len() > 0 {
                let dir = dirs[0];
                let inner = entered(disk.list(dir.path));
                lemma_visit_first(disk, cache, dirs, now, epoch_now, depth);
                lemma_visited_first(disk, dirs, depth);
                assert(visits(disk, dirs, depth) == 1 + visits(
                    disk,
                    inner + dirs.drop_first(),
                    depth,
                ));
                assert(next == visit(
                    ScannerView { pending: dirs.drop_first(), ..state },
                    dir,
                    cache,
                    now,
                ));
                lemma_run_ends(disk, next.0, next.1, cache, now, epoch_now, depth, (fuel - 1) as nat);
            }
        },
        ScanRequestView::Analyze { path } => {
            let raw = disk.read(path);
            let next = analyzed(s, raw, cache, now, epoch_now);
            lemma_run_ends(
                disk,
                next.0,
                next.1,
                cache_after(cache, raw, now, epoch_now),
                now,
                epoch_now,
                depth,
                (fuel - 1) as nat,
            );
        },
    }
}

/// A search from a root that is no repository, through a tree of bounded depth, ends
/// after at most two requests for each directory it visits and one for the root, and
/// hands out the repositories that lie below the root, in the order of their names.
pub proof fn law_search_ends_with_what_lies_below(
    disk: Disk,
    root: Seq<char>,
    cache: Map<Seq<char>, (RepoInfoView, u64)>,
    now: u64,
    epoch_now: i64,
    depth: nat,
    fuel: nat,
)
    requires
        disk.wf(),
        settles(disk, entered(disk.list(root)), depth),
        fuel >= 1 + 2 * visits(disk, entered(disk.list(root)), depth),
    ensures
        run(
            disk,
            begin(root, false, cache, now).0,
            begin(root, false, cache, now).1,
            cache,
            now,
            epoch_now,
            fuel,
        ) == Some(
            sorted_by_name(
                below(disk, cache, entered(disk.list(root)), now, epoch_now, depth),
            ),
        ),
{
    let start = begin(root, false, cache, now);
    let dirs = entered(disk.list(root));
    assert(dirs + start.0.pending =~= dirs);
    lemma_run_ends(disk, start.0, start.1, cache, now, epoch_now, depth, fuel);
    law_search_finds_what_lies_below(disk, root, cache, now, epoch_now, depth, fuel);
}

/// The cache as a search leaves it, carried through like [`run`].
pub open spec fn run_cache(
    disk: Disk,
    s: ScannerView,
    request: ScanRequestView,
    cache: Map<Seq<char>, (RepoInfoView, u64)>,
    now: u64,
    epoch_now: i64,
    fuel: nat,
) -> Map<Seq<char>, (RepoInfoView, u64)>
    decreases fuel,
{
    match request {
        ScanRequestView::Done(repos) => cache,
        ScanRequestView::ListDir { path } => if fuel == 0 {
            cache
        } else {
            let next = listed(s, disk.list(path), cache, now);
            run_cache(disk, next.0, next.1, cache, now, epoch_now, (fuel - 1) as nat)
        },
        ScanRequestView::Analyze { path } => if fuel == 0 {
            cache
        } else {
            let raw = disk.read(path);
            let next = analyzed(s, raw, cache, now, epoch_now);
            run_cache(
                disk,
                next.0,
                next.1,
                cache_after(cache, raw, now, epoch_now),
                now,
                epoch_now,
                (fuel - 1) as nat,
            )
        },
    }
}

/// The two caches hold the same under `path`.
pub open spec fn unchanged_at(
    before: Map<Seq<char>, (RepoInfoView, u64)>,
    after: Map<Seq<char>, (RepoInfoView, u64)>,
    path: Seq<char>,
) -> bool {
    &&& before.contains_key(path) == after.contains_key(path)
    &&& before.contains_key(path) ==> before[path] == after[path]
}

/// The later cache holds under `path` what a search at `now` read there, the earlier
/// cache having had no fresh entry for it.
pub open spec fn written_at(
    disk: Disk,
    before: Map<Seq<char>, (RepoInfoView, u64)>,
    after: Map<Seq<char>, (RepoInfoView, u64)>,
    path: Seq<char>,
    now: u64,
    epoch_now: i64,
) -> bool {
    &&& lookup(before, path, now) is None
    &&& disk.read(path) is Some
    &&& after.contains_key(path)
    &&& after[path] == (repo_info_of(disk.read(path)->0, epoch_now), now)
}

/// The later cache is the earlier one but for what a search at `now` has read.
pub open spec fn grown(
    disk: Disk,
    before: Map<Seq<char>, (RepoInfoView, u64)>,
    after: Map<Seq<char>, (RepoInfoView, u64)>,
    now: u64,
    epoch_now: i64,
) -> bool {
    forall|p: Seq<char>| #[trigger]
        unchanged_at(before, after, p) || written_at(disk, before, after, p, now, epoch_now)
}

/// The cache answers at `at` for the directory, if the directory is a repository that
/// can be read.
pub open spec fn answers(
    disk: Disk,
    cache: Map<Seq<char>, (RepoInfoView, u64)>,
    dir: PendingDirView,
    at: u64,
) -> bool {
    dir.is_repo && disk.read(dir.path) is Some ==> lookup(cache, dir.path, at) is Some
}

/// The cache answers at `at` for every one of the directories.
pub open spec fn answers_all(
    disk: Disk,
    cache: Map<Seq<char>, (RepoInfoView, u64)>,
    dirs: Seq<PendingDirView>,
    at: u64,
) -> bool {
    forall|i: int| 0 <= i < dirs.len() ==> answers(disk, cache, #[trigger] dirs[i], at)
}

/// A cache that has grown from one that had grown has grown from the first.
pub proof fn lemma_grown_twice(
    disk: Disk,
    a: Map<Seq<char>, (RepoInfoView, u64)>,
    b: Map<Seq<char>, (RepoInfoView, u64)>,
    c: Map<Seq<char>, (RepoInfoView, u64)>,
    now: u64,
    epoch_now: i64,
)
    requires
        grown(disk, a, b, now, epoch_now),
        grown(disk, b, c, now, epoch_now),
    ensures
        grown(disk, a, c, now, epoch_now),
{
    assert forall|p: Seq<char>| #[trigger]
        unchanged_at(a, c, p) || written_at(disk, a, c, p, now, epoch_now) by {
        assert(unchanged_at(a, b, p) || written_at(disk, a, b, p, now, epoch_now));
        assert(unchanged_at(b, c, p) || written_at(disk, b, c, p, now, epoch_now));
    }
}

/// From any state on the way, a search that ends leaves a cache that has grown by what
/// it read and that answers for every repository it came past and could read.
pub proof fn lemma_run_cache(
    disk: Disk,
    s: ScannerView,
    request: ScanRequestView,
    cache: Map<Seq<char>, (RepoInfoView, u64)>,
    now: u64,
    epoch_now: i64,
    depth: nat,
    fuel: nat,
)
    requires
        disk.wf(),
        on_the_way(disk, s, request, cache, now, depth),
        run(disk, s, request, cache, now, epoch_now, fuel) is Some,
    ensures
        grown(disk, cache, run_cache(disk, s, request, cache, now, epoch_now, fuel), now, epoch_now),
        match request {
            ScanRequestView::Done(repos) => true,
            ScanRequestView::ListDir { path } => answers_all(
                disk,
                run_cache(disk, s, request, cache, now, epoch_now, fuel),
                visited(disk, entered(disk.list(path)) + s.pending, depth),
                now,
            ),
            ScanRequestView::Analyze { path } => {
                &&& answers_all(
                    disk,
                    run_cache(disk, s, request, cache, now, epoch_now, fuel),
                    visited(disk, entered(disk.list(path)) + s.pending, depth),
                    now,
                )
                &&& disk.read(path) is Some ==> lookup(
                    run_cache(disk, s, request, cache, now, epoch_now, fuel),
                    path,
                    now,
                ) is Some
            },
        },
    decreases fuel,
{
    let last = run_cache(disk, s, request, cache, now, epoch_now, fuel);
    match request {
        ScanRequestView::Done(repos) => {
            assert forall|p: Seq<char>| #[trigger]
                unchanged_at(cache, last, p) || written_at(
                    disk,
                    cache,
                    last,
                    p,
                    now,
                    epoch_now,
                ) by {}
        },
        ScanRequestView::ListDir { path } => {
            let dirs = entered(disk.list(path)) + s.pending;
            let state = ScannerView { pending: dirs, ..s };
            let next = proceed(state, cache, now);
            if dirs.len() == 0 {
                assert(fuel > 0);
                assert(next.1 is Done);
                assert(run_cache(disk, next.0, next.1, cache, now, epoch_now, (fuel - 1) as nat)
                    == cache);
                assert(last == cache);
                assert forall|p: Seq<char>| #[trigger]
                    unchanged_at(cache, last, p) || written_at(
                        disk,
                        cache,
                        last,
                        p,
                        now,
                        epoch_now,
                    ) by {}
            } else {
                let dir = dirs[0];
                let rest_dirs = entered(disk.list(dir.path)) + dirs.drop_first();
                lemma_visit_first(disk, cache, dirs, now, epoch_now, depth);
                lemma_visited_first(disk, dirs, depth);
                assert(next == visit(
                    ScannerView { pending: dirs.drop_first(), ..state },
                    dir,
                    cache,
                    now,
                ));
                lemma_run_cache(disk, next.0, next.1, cache, now, epoch_now, depth, (fuel - 1) as nat);
                let seen = visited(disk, dirs, depth);
                let later_seen = visited(disk, rest_dirs, depth);
                assert(unchanged_at(cache, last, dir.path) || written_at(
                    disk,
                    cache,
                    last,
                    dir.path,
                    now,
                    epoch_now,
                ));
                assert(answers(disk, last, dir, now));
                assert forall|i: int| 0 <= i < seen.len() implies answers(
                    disk,
                    last,
                    #[trigger] seen[i],
                    now,
                ) by {
                    if i > 0 {
                        assert(seen[i] == later_seen[i - 1]);
                    }
                }
            }
        },
        ScanRequestView::Analyze { path } => {
            let raw = disk.read(path);
            let next = analyzed(s, raw, cache, now, epoch_now);
            let written = cache_after(cache, raw, now, epoch_now);
            lemma_run_cache(disk, next.0, next.1, written, now, epoch_now, depth, (fuel - 1) as nat);
            assert(grown(disk, cache, written, now, epoch_now)) by {
                assert forall|p: Seq<char>| #[trigger]
                    unchanged_at(cache, written, p) || written_at(
                        disk,
                        cache,
                        written,
                        p,
                        now,
                        epoch_now,
                    ) by {
                    if let Some(r) = raw {
                        assert(r.path == path);
                    }
                }
            }
            lemma_grown_twice(disk, cache, written, last, now, epoch_now);
            assert(unchanged_at(written, last, path) || written_at(
                disk,
                written,
                last,
                path,
                now,
                epoch_now,
            ));
        },
    }
}

/// With a cache that has grown by a search at `now` and answers for the directories
/// visited, a search at `later`, within the hour, finds the very records that the
/// search at `now` found.
pub proof fn lemma_same_below(
    disk: Disk,
    first_cache: Map<Seq<char>, (RepoInfoView, u64)>,
    last_cache: Map<Seq<char>, (RepoInfoView, u64)>,
    dirs: Seq<PendingDirView>,
    now: u64,
    epoch_now: i64,
    later: u64,
    epoch_later: i64,
    depth: nat,
)
    requires
        grown(disk, first_cache, last_cache, now, epoch_now),
        answers_all(disk, last_cache, visited(disk, dirs, depth), now),
        is_fresh(now, later),
        forall|p: Seq<char>| #[trigger]
            lookup(first_cache, p, later) == lookup(first_cache, p, now),
    ensures
        below(disk, last_cache, dirs, later, epoch_later, depth) == below(
            disk,
            first_cache,
            dirs,
            now,
            epoch_now,
            depth,
        ),
        answers_all(disk, last_cache, visited(disk, dirs, depth), later),
    decreases depth, dirs.len(),
{
    let seen = visited(disk, dirs, depth);
    if dirs.len() > 0 {
        let dir = dirs[0];
        let inner = entered(disk.list(dir.path));
        let rest = dirs.drop_first();
        let inside = if depth == 0 {
            Seq::<PendingDirView>::empty()
        } else {
            visited(disk, inner, (depth - 1) as nat)
        };
        let after = visited(disk, rest, depth);
        assert(seen =~= seq![dir] + inside + after);
        assert(seen[0] == dir);
        assert(answers(disk, last_cache, dir, now));
        assert(unchanged_at(first_cache, last_cache, dir.path) || written_at(
            disk,
            first_cache,
            last_cache,
            dir.path,
            now,
            epoch_now,
        ));
        assert(lookup(first_cache, dir.path, later) == lookup(first_cache, dir.path, now));
        assert(found_at(disk, last_cache, dir, later, epoch_later) == found_at(
            disk,
            first_cache,
            dir,
            now,
            epoch_now,
        ));
        assert(answers(disk, last_cache, dir, later));
        assert(answers_all(disk, last_cache, after, now)) by {
            assert forall|i: int| 0 <= i < after.len() implies answers(
                disk,
                last_cache,
                #[trigger] after[i],
                now,
            ) by {
                assert(after[i] == seen[1 + inside.len() + i]);
            }
        }
        lemma_same_below(
            disk,
            first_cache,
            last_cache,
            rest,
            now,
            epoch_now,
            later,
            epoch_later,
            depth,
        );
        if depth > 0 {
            assert(answers_all(disk, last_cache, inside, now)) by {
                assert forall|i: int| 0 <= i < inside.len() implies answers(
                    disk,
                    last_cache,
                    #[trigger] inside[i],
                    now,
                ) by {
                    assert(inside[i] == seen[1 + i]);
                }
            }
            lemma_same_below(
                disk,
                first_cache,
                last_cache,
                inner,
                now,
                epoch_now,
                later,
                epoch_later,
                (depth - 1) as nat,
            );
        }
        assert forall|i: int| 0 <= i < seen.len() implies answers(
            disk,
            last_cache,
            #[trigger] seen[i],
            later,
        ) by {
            if i == 0 {
            } else if i < 1 + inside.len() {
                assert(seen[i] == inside[i - 1]);
            } else {
                assert(seen[i] == after[i - 1 - inside.len()]);
            }
        }
    }
}

/// Two searches of the same tree within the hour hand out the same list, and the second
/// finds in the cache every repository that it comes past and that can be read: it reads
/// none of them again. This holds for a tree of bounded depth below a root that is no
/// repository, and for a cache whose entries from before the first search do not run
/// out between the two.
pub proof fn law_second_search_is_served_from_the_cache(
    disk: Disk,
    root: Seq<char>,
    cache: Map<Seq<char>, (RepoInfoView, u64)>,
    now: u64,
    epoch_now: i64,
    later: u64,
    epoch_later: i64,
    depth: nat,
    fuel: nat,
)
    requires
        disk.wf(),
        settles(disk, entered(disk.list(root)), depth),
        fuel >= 1 + 2 * visits(disk, entered(disk.list(root)), depth),
        is_fresh(now, later),
        forall|p: Seq<char>| #[trigger] lookup(cache, p, later) == lookup(cache, p, now),
    ensures
        ({
            let first = begin(root, false, cache, now);
            let left = run_cache(disk, first.0, first.1, cache, now, epoch_now, fuel);
            let second = begin(root, false, left, later);
            &&& run(disk, second.0, second.1, left, later, epoch_later, fuel) == run(
                disk,
                first.0,
                first.1,
                cache,
                now,
                epoch_now,
                fuel,
            )
            &&& answers_all(disk, left, visited(disk, entered(disk.list(root)), depth), later)
        }),
{
    let first = begin(root, false, cache, now);
    let dirs = entered(disk.list(root));
    let left = run_cache(disk, first.0, first.1, cache, now, epoch_now, fuel);
    assert(dirs + first.0.pending =~= dirs);
    law_search_ends_with_what_lies_below(disk, root, cache, now, epoch_now, depth, fuel);
    lemma_run_cache(disk, first.0, first.1, cache, now, epoch_now, depth, fuel);
    lemma_same_below(disk, cache, left, dirs, now, epoch_now, later, epoch_later, depth);
    law_search_ends_with_what_lies_below(disk, root, left, later, epoch_later, depth, fuel);
}

} // verus!
