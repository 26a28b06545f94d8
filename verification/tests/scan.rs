use project_dash::cache::TtlCache;
use project_dash::git::RawRepo;
use project_dash::repo::RepoInfo;
use project_dash::scan::{
    analyze_repo, cached_repo, invalidate_all_repo_caches, is_skipped, scan_directory,
    should_descend, sort_repos, DirEntry, ScanRequest, Scanner,
};

/// A directory tree held in memory: each path is a directory, a repository, or a file.
struct Tree {
    dirs: Vec<(&'static str, bool)>,
    files: Vec<&'static str>,
    unreadable: Vec<&'static str>,
    broken: Vec<&'static str>,
    reads: usize,
    listings: Vec<String>,
}

fn tree(dirs: &[(&'static str, bool)]) -> Tree {
    Tree {
        dirs: dirs.to_vec(),
        files: Vec::new(),
        unreadable: Vec::new(),
        broken: Vec::new(),
        reads: 0,
        listings: Vec::new(),
    }
}

fn base_name(path: &str) -> String {
    path.rsplit('/').next().unwrap_or("").to_string()
}

fn parent(path: &str) -> &str {
    match path.rfind('/') {
        Some(i) => &path[..i],
        None => "",
    }
}

impl Tree {
    fn is_repo(&self, path: &str) -> bool {
        self.dirs.iter().any(|(p, repo)| *p == path && *repo)
    }

    fn list(&mut self, path: &str) -> Vec<DirEntry> {
        self.listings.push(path.to_string());
        if self.unreadable.contains(&path) {
            return Vec::new();
        }
        let mut entries = Vec::new();
        for (p, repo) in &self.dirs {
            if parent(p) == path {
                entries.push(DirEntry {
                    name: Some(base_name(p)),
                    path: p.to_string(),
                    is_dir: true,
                    is_repo: *repo,
                });
            }
        }
        for p in &self.files {
            if parent(p) == path {
                entries.push(DirEntry {
                    name: Some(base_name(p)),
                    path: p.to_string(),
                    is_dir: false,
                    is_repo: false,
                });
            }
        }
        entries
    }

    fn read(&mut self, path: &str) -> Option<RawRepo> {
        self.reads += 1;
        if self.broken.contains(&path) {
            return None;
        }
        Some(RawRepo {
            path: path.to_string(),
            dir_name: Some(base_name(path)),
            detached: false,
            head: None,
            branches: Vec::new(),
            statuses: None,
            remote_url: None,
            walk: Vec::new(),
        })
    }

    fn scan(&mut self, root: &str, cache: &mut TtlCache<RepoInfo>, now: u64) -> Vec<RepoInfo> {
        let root_is_repo = self.is_repo(root);
        let (mut scanner, mut request): (Scanner, ScanRequest) =
            scan_directory(root.to_string(), root_is_repo, cache, now);
        for _ in 0..10_000 {
            request = match request {
                ScanRequest::Done(repos) => return repos,
                ScanRequest::ListDir { path } => {
                    let entries = self.list(&path);
                    scanner.on_listed(entries, cache, now)
                }
                ScanRequest::Analyze { path } => {
                    let raw = self.read(&path);
                    scanner.on_analyzed(raw, cache, now, 0)
                }
            };
        }
        panic!("the search did not end");
    }
}

fn names(repos: &[RepoInfo]) -> Vec<&str> {
    repos.iter().map(|r| r.name.as_str()).collect()
}

fn named(name: &str) -> RepoInfo {
    let mut cache = TtlCache::new();
    let raw = RawRepo {
        path: format!("/somewhere/{name}"),
        dir_name: Some(name.to_string()),
        detached: false,
        head: None,
        branches: Vec::new(),
        statuses: None,
        remote_url: None,
        walk: Vec::new(),
    };
    analyze_repo(&mut cache, &raw, 0, 0)
}

#[test]
fn test_scan_finds_nested_repos() {
    let mut fs = tree(&[
        ("/tmp/x", false),
        ("/tmp/x/group", false),
        ("/tmp/x/group/repo-a", true),
        ("/tmp/x/group/repo-b", true),
    ]);
    let mut cache = TtlCache::new();
    let repos = fs.scan("/tmp/x", &mut cache, 0);
    let mut found = names(&repos);
    found.sort();
    assert_eq!(found, vec!["repo-a", "repo-b"]);
}

#[test]
fn nested_repositories_are_found_sorted_and_once() {
    let mut fs = tree(&[
        ("/tmp/x", false),
        ("/tmp/x/group", false),
        ("/tmp/x/group/repo-b", true),
        ("/tmp/x/group/repo-a", true),
    ]);
    let mut cache = TtlCache::new();
    let repos = fs.scan("/tmp/x", &mut cache, 0);
    assert_eq!(names(&repos), vec!["repo-a", "repo-b"]);
    assert_eq!(repos[0].path, "/tmp/x/group/repo-a");
    assert_eq!(repos[1].path, "/tmp/x/group/repo-b");
    assert_eq!(repos[0].github_data, None);
    assert_eq!(repos[0].github_error, None);
}

#[test]
fn root_that_is_a_repository_is_the_only_result() {
    let mut fs = tree(&[
        ("/mono", true),
        ("/mono/vendored", false),
        ("/mono/vendored/inner", true),
        ("/mono/other", true),
    ]);
    let mut cache = TtlCache::new();
    let repos = fs.scan("/mono", &mut cache, 0);
    assert_eq!(names(&repos), vec!["mono"]);
    assert!(fs.listings.is_empty());
    assert_eq!(fs.reads, 1);
}

#[test]
fn root_that_cannot_be_read_gives_nothing() {
    let mut fs = tree(&[("/mono", true), ("/mono/inner", true)]);
    fs.broken.push("/mono");
    let mut cache = TtlCache::new();
    assert!(fs.scan("/mono", &mut cache, 0).is_empty());
    assert!(fs.listings.is_empty());
}

#[test]
fn repositories_inside_repositories_are_found() {
    let mut fs = tree(&[
        ("/w", false),
        ("/w/outer", true),
        ("/w/outer/sub", false),
        ("/w/outer/sub/inner", true),
    ]);
    let mut cache = TtlCache::new();
    let repos = fs.scan("/w", &mut cache, 0);
    assert_eq!(names(&repos), vec!["inner", "outer"]);
}

#[test]
fn skipped_and_hidden_directories_are_not_entered() {
    let mut fs = tree(&[
        ("/w", false),
        ("/w/node_modules", false),
        ("/w/node_modules/dep", true),
        ("/w/target", true),
        ("/w/.hidden", false),
        ("/w/.hidden/secret", true),
        ("/w/src", false),
        ("/w/src/vendor", false),
        ("/w/src/vendor/lib", true),
        ("/w/src/app", true),
    ]);
    fs.files.push("/w/README.md");
    let mut cache = TtlCache::new();
    let repos = fs.scan("/w", &mut cache, 0);
    assert_eq!(names(&repos), vec!["app"]);
    assert_eq!(fs.listings, vec!["/w", "/w/src", "/w/src/app"]);
}

#[test]
fn unreadable_directories_and_repositories_are_passed_over() {
    let mut fs = tree(&[
        ("/w", false),
        ("/w/locked", false),
        ("/w/locked/inside", true),
        ("/w/broken", true),
        ("/w/good", true),
    ]);
    fs.unreadable.push("/w/locked");
    fs.broken.push("/w/broken");
    let mut cache = TtlCache::new();
    let repos = fs.scan("/w", &mut cache, 0);
    assert_eq!(names(&repos), vec!["good"]);
}

#[test]
fn empty_tree_gives_nothing() {
    let mut fs = tree(&[("/w", false)]);
    let mut cache = TtlCache::new();
    assert!(fs.scan("/w", &mut cache, 0).is_empty());
    assert_eq!(fs.listings, vec!["/w"]);
}

#[test]
fn second_scan_within_the_hour_reads_nothing() {
    let mut fs = tree(&[("/w", false), ("/w/a", true), ("/w/b", false), ("/w/b/c", true)]);
    let mut cache = TtlCache::new();
    let first = fs.scan("/w", &mut cache, 1000);
    assert_eq!(fs.reads, 2);
    let second = fs.scan("/w", &mut cache, 4599);
    assert_eq!(fs.reads, 2);
    assert_eq!(first, second);
    let third = fs.scan("/w", &mut cache, 4600);
    assert_eq!(fs.reads, 4);
    assert_eq!(first, third);
    let fourth = fs.scan("/w", &mut cache, 4601);
    assert_eq!(fs.reads, 4);
    assert_eq!(first, fourth);
}

#[test]
fn emptied_cache_makes_the_next_scan_read_again() {
    let mut fs = tree(&[("/w", false), ("/w/a", true)]);
    let mut cache = TtlCache::new();
    fs.scan("/w", &mut cache, 0);
    assert!(cached_repo(&cache, &"/w/a".to_string(), 1).is_some());
    invalidate_all_repo_caches(&mut cache);
    assert!(cached_repo(&cache, &"/w/a".to_string(), 1).is_none());
    fs.scan("/w", &mut cache, 1);
    assert_eq!(fs.reads, 2);
}

#[test]
fn cached_root_is_served_without_reading() {
    let mut fs = tree(&[("/mono", true)]);
    let mut cache = TtlCache::new();
    let first = fs.scan("/mono", &mut cache, 0);
    let second = fs.scan("/mono", &mut cache, 10);
    assert_eq!(first, second);
    assert_eq!(fs.reads, 1);
}

#[test]
fn skip_list() {
    let skipped = [
        "node_modules", "target", "build", "dist", "out", "vendor", "venv", ".venv",
        "__pycache__", "Pods", "DerivedData", ".gradle", ".cargo", ".rustup", "Library",
        "Applications", "Music", "Movies", "Pictures", "Photos", ".Trash", ".git", ".", "..x",
    ];
    for name in skipped {
        assert!(is_skipped(name), "{name}");
    }
    let entered = ["", "src", "Target", "builds", "node_module", "my.repo", "venv2", "library", "x.git"];
    for name in entered {
        assert!(!is_skipped(name), "{name}");
    }
}

#[test]
fn only_directories_are_entered() {
    let dir = DirEntry { name: Some("src".to_string()), path: "/w/src".to_string(), is_dir: true, is_repo: false };
    assert!(should_descend(&dir));
    assert!(!should_descend(&DirEntry { is_dir: false, ..dir.clone() }));
    assert!(!should_descend(&DirEntry { name: Some("dist".to_string()), ..dir.clone() }));
    assert!(should_descend(&DirEntry { name: None, ..dir.clone() }));
    assert!(should_descend(&DirEntry { is_repo: true, ..dir }));
}

#[test]
fn names_are_ordered_without_regard_to_case() {
    let repos = vec![named("beta"), named("Alpha"), named("alpha"), named("Zeta"), named("ALPHA"), named("ähnlich"), named("Émile")];
    let paths_before: Vec<String> = repos.iter().map(|r| r.path.clone()).collect();
    let sorted = sort_repos(repos);
    assert_eq!(names(&sorted), vec!["Alpha", "alpha", "ALPHA", "beta", "Zeta", "ähnlich", "Émile"]);
    assert_eq!(sorted.len(), paths_before.len());
}

#[test]
fn upper_case_does_not_come_before_lower_case() {
    let sorted = sort_repos(vec![named("a"), named("B")]);
    assert_eq!(names(&sorted), vec!["a", "B"]);
    let sorted = sort_repos(vec![named("B"), named("a")]);
    assert_eq!(names(&sorted), vec!["a", "B"]);
    assert!(sort_repos(Vec::new()).is_empty());
}

#[test]
fn analysis_is_written_to_the_cache() {
    let mut cache = TtlCache::new();
    let raw = RawRepo {
        path: "/w/a".to_string(),
        dir_name: Some("a".to_string()),
        detached: false,
        head: None,
        branches: Vec::new(),
        statuses: None,
        remote_url: None,
        walk: Vec::new(),
    };
    let info = analyze_repo(&mut cache, &raw, 50, 0);
    assert_eq!(cached_repo(&cache, &"/w/a".to_string(), 50), Some(info.clone()));
    assert_eq!(cached_repo(&cache, &"/w/a".to_string(), 3649), Some(info));
    assert_eq!(cached_repo(&cache, &"/w/a".to_string(), 3650), None);
    assert_eq!(cached_repo(&cache, &"/w/b".to_string(), 50), None);
}
