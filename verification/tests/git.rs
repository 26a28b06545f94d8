use project_dash::git::{
    abbreviate, analyze_repo_uncached, classify, format_timestamp, get_current_branch,
    get_recent_commits, get_repo_status, list_branches, ChangeKind, CommitMeta, HeadRef, RawRepo,
    StatusEntry, WalkEntry, ADDED_BITS, DELETED_BITS, INDEX_DELETED, INDEX_MODIFIED, INDEX_NEW,
    INDEX_RENAMED, MODIFIED_BITS, WT_DELETED, WT_MODIFIED, WT_NEW, WT_RENAMED,
};
use project_dash::repo::{CommitInfo, RepoInfo, RepoStatus};

fn entry(flags: u32, path: &str) -> StatusEntry {
    StatusEntry { flags, path: Some(path.to_string()) }
}

fn walk(id: &str, summary: Option<&str>, author: Option<&str>, time: i64) -> WalkEntry {
    WalkEntry {
        id: id.to_string(),
        commit: Some(CommitMeta {
            summary: summary.map(|s| s.to_string()),
            author: author.map(|s| s.to_string()),
            time,
        }),
    }
}

fn head(target: Option<&str>, shorthand: Option<&str>) -> Option<HeadRef> {
    Some(HeadRef { target: target.map(|s| s.to_string()), shorthand: shorthand.map(|s| s.to_string()) })
}

fn status_of_one(flags: u32) -> (RepoStatus, Vec<String>) {
    get_repo_status(&Some(vec![entry(flags, "src/main.rs")]))
}

#[test]
fn status_bits_are_those_of_git() {
    assert_eq!(INDEX_NEW, git2::Status::INDEX_NEW.bits());
    assert_eq!(INDEX_MODIFIED, git2::Status::INDEX_MODIFIED.bits());
    assert_eq!(INDEX_DELETED, git2::Status::INDEX_DELETED.bits());
    assert_eq!(INDEX_RENAMED, git2::Status::INDEX_RENAMED.bits());
    assert_eq!(WT_NEW, git2::Status::WT_NEW.bits());
    assert_eq!(WT_MODIFIED, git2::Status::WT_MODIFIED.bits());
    assert_eq!(WT_DELETED, git2::Status::WT_DELETED.bits());
    assert_eq!(WT_RENAMED, git2::Status::WT_RENAMED.bits());
    let modified = git2::Status::WT_MODIFIED
        | git2::Status::INDEX_MODIFIED
        | git2::Status::WT_RENAMED
        | git2::Status::INDEX_RENAMED;
    assert_eq!(MODIFIED_BITS, modified.bits());
    assert_eq!(ADDED_BITS, (git2::Status::WT_NEW | git2::Status::INDEX_NEW).bits());
    assert_eq!(DELETED_BITS, (git2::Status::WT_DELETED | git2::Status::INDEX_DELETED).bits());
}

#[test]
fn classification_agrees_with_git_for_every_flag() {
    let flags = [
        git2::Status::CURRENT,
        git2::Status::INDEX_NEW,
        git2::Status::INDEX_MODIFIED,
        git2::Status::INDEX_DELETED,
        git2::Status::INDEX_RENAMED,
        git2::Status::INDEX_TYPECHANGE,
        git2::Status::WT_NEW,
        git2::Status::WT_MODIFIED,
        git2::Status::WT_DELETED,
        git2::Status::WT_TYPECHANGE,
        git2::Status::WT_RENAMED,
        git2::Status::IGNORED,
        git2::Status::CONFLICTED,
    ];
    let modified = git2::Status::WT_MODIFIED
        | git2::Status::INDEX_MODIFIED
        | git2::Status::WT_RENAMED
        | git2::Status::INDEX_RENAMED;
    for a in flags {
        for b in flags {
            let s = a | b;
            let expected = if s.intersects(modified) {
                Some(ChangeKind::Modified)
            } else if s.intersects(git2::Status::WT_NEW | git2::Status::INDEX_NEW) {
                Some(ChangeKind::Added)
            } else if s.intersects(git2::Status::WT_DELETED | git2::Status::INDEX_DELETED) {
                Some(ChangeKind::Deleted)
            } else {
                None
            };
            assert_eq!(classify(s.bits()), expected);
        }
    }
}

#[test]
fn each_single_state_moves_one_counter() {
    for flags in [WT_MODIFIED, INDEX_MODIFIED, WT_RENAMED, INDEX_RENAMED] {
        assert_eq!(
            status_of_one(flags),
            (RepoStatus::Dirty { modified: 1, added: 0, deleted: 0 }, vec!["M src/main.rs".to_string()])
        );
    }
    for flags in [WT_NEW, INDEX_NEW] {
        assert_eq!(
            status_of_one(flags),
            (RepoStatus::Dirty { modified: 0, added: 1, deleted: 0 }, vec!["A src/main.rs".to_string()])
        );
    }
    for flags in [WT_DELETED, INDEX_DELETED] {
        assert_eq!(
            status_of_one(flags),
            (RepoStatus::Dirty { modified: 0, added: 0, deleted: 1 }, vec!["D src/main.rs".to_string()])
        );
    }
}

#[test]
fn modified_wins_over_added_and_added_over_deleted() {
    assert_eq!(classify(WT_MODIFIED | INDEX_NEW | WT_DELETED), Some(ChangeKind::Modified));
    assert_eq!(classify(INDEX_NEW | WT_DELETED), Some(ChangeKind::Added));
    assert_eq!(classify(INDEX_DELETED | WT_DELETED), Some(ChangeKind::Deleted));
    assert_eq!(classify(0), None);
    assert_eq!(classify(0x4000), None);
    assert_eq!(classify(0x10), None);
}

#[test]
fn tree_without_changes_is_clean() {
    assert_eq!(get_repo_status(&Some(Vec::new())), (RepoStatus::Clean, Vec::new()));
    assert_eq!(get_repo_status(&None), (RepoStatus::Clean, Vec::new()));
    assert_eq!(status_of_one(0), (RepoStatus::Clean, Vec::new()));
    assert_eq!(status_of_one(0x4000), (RepoStatus::Clean, Vec::new()));
}

#[test]
fn status_counts_and_lists_in_order() {
    let entries = vec![
        entry(WT_NEW, "new.txt"),
        entry(WT_MODIFIED, "changed.rs"),
        entry(0x4000, "ignored.log"),
        StatusEntry { flags: INDEX_DELETED, path: None },
        entry(INDEX_RENAMED, "moved.rs"),
        entry(INDEX_NEW | WT_MODIFIED, "both.rs"),
    ];
    let (status, files) = get_repo_status(&Some(entries));
    assert_eq!(status, RepoStatus::Dirty { modified: 3, added: 1, deleted: 1 });
    assert_eq!(files, vec!["A new.txt", "M changed.rs", "D ?", "M moved.rs", "M both.rs"]);
}

#[test]
fn relative_dates() {
    let now = 1_700_000_000;
    assert_eq!(format_timestamp(now, now), "just now");
    assert_eq!(format_timestamp(now - 59, now), "just now");
    assert_eq!(format_timestamp(now + 500, now), "just now");
    assert_eq!(format_timestamp(now - 60, now), "1m ago");
    assert_eq!(format_timestamp(now - 119, now), "1m ago");
    assert_eq!(format_timestamp(now - 3599, now), "59m ago");
    assert_eq!(format_timestamp(now - 3600, now), "1h ago");
    assert_eq!(format_timestamp(now - 86399, now), "23h ago");
    assert_eq!(format_timestamp(now - 86400, now), "1d ago");
    assert_eq!(format_timestamp(now - 2591999, now), "29d ago");
    assert_eq!(format_timestamp(now - 2592000, now), "1mo ago");
    assert_eq!(format_timestamp(now - 31_536_000, now), "12mo ago");
    assert_eq!(format_timestamp(0, now), "655mo ago");
}

#[test]
fn relative_dates_at_the_ends_of_the_range() {
    assert_eq!(format_timestamp(i64::MAX, i64::MIN), "just now");
    assert_eq!(format_timestamp(i64::MIN, i64::MAX), "7116799411153mo ago");
    assert_eq!(format_timestamp(i64::MIN, 0), "3558399705576mo ago");
}

#[test]
fn hashes_are_cut_to_seven_characters() {
    assert_eq!(abbreviate("0123456789abcdef0123456789abcdef01234567"), "0123456");
    assert_eq!(abbreviate("0123456"), "0123456");
    assert_eq!(abbreviate("abc"), "abc");
    assert_eq!(abbreviate(""), "");
}

#[test]
fn branch_labels() {
    let hash = "fedcba9876543210fedcba9876543210fedcba98";
    assert_eq!(get_current_branch(true, &head(Some(hash), Some("HEAD"))), "detached@fedcba9");
    assert_eq!(get_current_branch(true, &head(None, Some("main"))), "detached");
    assert_eq!(get_current_branch(true, &None), "detached");
    assert_eq!(get_current_branch(false, &head(Some(hash), Some("main"))), "main");
    assert_eq!(get_current_branch(false, &head(Some(hash), Some("feature/x"))), "feature/x");
    assert_eq!(get_current_branch(false, &head(Some(hash), None)), "HEAD");
    assert_eq!(get_current_branch(false, &None), "HEAD");
}

#[test]
fn unreadable_branch_names_are_left_out() {
    let names = vec![Some("main".to_string()), None, Some("dev".to_string()), None];
    assert_eq!(list_branches(&names), vec!["main", "dev"]);
    assert!(list_branches(&Vec::new()).is_empty());
}

#[test]
fn commits_are_shown_newest_first_with_fallbacks() {
    let now = 10_000;
    let entries = vec![
        walk("aaaaaaaaaaaaaaaa", Some("fix bug"), Some("Ada"), now - 30),
        WalkEntry { id: "bbbbbbbbbbbbbbbb".to_string(), commit: None },
        walk("cccccccccccccccc", None, None, now - 7200),
    ];
    assert_eq!(
        get_recent_commits(&entries, 20, now),
        vec![
            CommitInfo {
                hash: "aaaaaaa".to_string(),
                message: "fix bug".to_string(),
                author: "Ada".to_string(),
                date: "just now".to_string(),
            },
            CommitInfo {
                hash: "ccccccc".to_string(),
                message: "".to_string(),
                author: "unknown".to_string(),
                date: "2h ago".to_string(),
            },
        ]
    );
}

#[test]
fn history_is_cut_before_unreadable_commits_are_dropped() {
    let mut entries: Vec<WalkEntry> = Vec::new();
    for n in 0..30 {
        if n == 3 {
            entries.push(WalkEntry { id: format!("{n:040}"), commit: None });
        } else {
            entries.push(walk(&format!("{n:040}"), Some("c"), Some("a"), 0));
        }
    }
    assert_eq!(get_recent_commits(&entries, 20, 0).len(), 19);
    assert_eq!(get_recent_commits(&entries, 3, 0).len(), 3);
    assert_eq!(get_recent_commits(&entries, 4, 0).len(), 3);
    assert_eq!(get_recent_commits(&entries, 0, 0).len(), 0);
    assert_eq!(get_recent_commits(&entries, 100, 0).len(), 29);
    assert!(get_recent_commits(&Vec::new(), 20, 0).is_empty());
}

#[test]
fn repository_record_is_assembled() {
    let raw = RawRepo {
        path: "/work/demo".to_string(),
        dir_name: Some("demo".to_string()),
        detached: false,
        head: head(Some("1234567890abcdef"), Some("main")),
        branches: vec![Some("main".to_string()), Some("dev".to_string())],
        statuses: Some(vec![entry(WT_MODIFIED, "a.rs"), entry(WT_NEW, "b.rs")]),
        remote_url: Some("git@github.com:me/demo.git".to_string()),
        walk: (0..25).map(|n| walk(&format!("{n:040}"), Some("msg"), Some("me"), 1000)).collect(),
    };
    let info = analyze_repo_uncached(&raw, 1000 + 86400 * 3);
    assert_eq!(info.name, "demo");
    assert_eq!(info.path, "/work/demo");
    assert_eq!(info.status, RepoStatus::Dirty { modified: 1, added: 1, deleted: 0 });
    assert_eq!(info.changed_files, vec!["M a.rs", "A b.rs"]);
    assert_eq!(info.current_branch, "main");
    assert_eq!(info.branches, vec!["main", "dev"]);
    assert_eq!(info.remote_url, Some("git@github.com:me/demo.git".to_string()));
    assert_eq!(info.github_repo, Some(("me".to_string(), "demo".to_string())));
    assert_eq!(info.github_data, None);
    assert_eq!(info.github_error, None);
    assert_eq!(info.recent_commits.len(), 20);
    assert_eq!(info.recent_commits[0].hash, "0000000");
    assert_eq!(info.recent_commits[19].date, "3d ago");
}

#[test]
fn parts_that_could_not_be_read_show_as_empty() {
    let raw = RawRepo {
        path: "/work/bare".to_string(),
        dir_name: None,
        detached: false,
        head: None,
        branches: Vec::new(),
        statuses: None,
        remote_url: None,
        walk: Vec::new(),
    };
    let info = analyze_repo_uncached(&raw, 0);
    assert_eq!(
        info,
        RepoInfo {
            name: "unknown".to_string(),
            path: "/work/bare".to_string(),
            status: RepoStatus::Clean,
            current_branch: "HEAD".to_string(),
            branches: Vec::new(),
            remote_url: None,
            github_repo: None,
            github_data: None,
            github_error: None,
            recent_commits: Vec::new(),
            changed_files: Vec::new(),
        }
    );
    assert_eq!(info.duplicate(), info);
}

#[test]
fn remote_on_another_host_has_no_coordinates() {
    let raw = RawRepo {
        path: "/work/x".to_string(),
        dir_name: Some("x".to_string()),
        detached: true,
        head: head(Some("abcdef0123456789"), None),
        branches: Vec::new(),
        statuses: Some(Vec::new()),
        remote_url: Some("https://gitlab.com/me/x.git".to_string()),
        walk: Vec::new(),
    };
    let info = analyze_repo_uncached(&raw, 0);
    assert_eq!(info.github_repo, None);
    assert_eq!(info.remote_url, Some("https://gitlab.com/me/x.git".to_string()));
    assert_eq!(info.current_branch, "detached@abcdef0");
}
