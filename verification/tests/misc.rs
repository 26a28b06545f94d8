use project_dash::app::Rect;
use project_dash::order::{sort_keyed, text_before_or_equal};
use project_dash::path_set::PathSet;
use project_dash::repo::{GitHubData, GitHubItem, RepoInfo, RepoStatus};
use project_dash::text::{
    chars_of, contains_text, decimal_string, ends_with, find_first, find_last, same_text,
    slice_of, starts_with, string_of,
};
use project_dash::zones::{
    decimal_width, issue_link, issue_zones, new_issue_link, pull_link, pull_zones, repo_link,
    status_width, zone_of_line,
};

fn chars(s: &str) -> Vec<char> {
    s.chars().collect()
}

fn repo(name: &str) -> RepoInfo {
    RepoInfo {
        name: name.to_string(),
        path: format!("/w/{name}"),
        status: RepoStatus::Clean,
        current_branch: "main".to_string(),
        branches: Vec::new(),
        remote_url: None,
        github_repo: Some(("me".to_string(), name.to_string())),
        github_data: None,
        github_error: None,
        recent_commits: Vec::new(),
        changed_files: Vec::new(),
    }
}

fn with_items(issues: &[u64], prs: &[u64]) -> RepoInfo {
    let items = |ns: &[u64]| ns.iter().map(|n| GitHubItem { number: *n, title: "t".to_string() }).collect();
    RepoInfo {
        github_data: Some(GitHubData {
            open_issues: issues.len(),
            open_prs: prs.len(),
            recent_issues: items(issues),
            recent_prs: items(prs),
        }),
        ..repo("demo")
    }
}

fn row(area: Rect, y: u16) -> Rect {
    Rect { x: area.x, y, width: area.width, height: 1 }
}

#[test]
fn decimal_notation() {
    assert_eq!(decimal_string(0), "0");
    assert_eq!(decimal_string(7), "7");
    assert_eq!(decimal_string(10), "10");
    assert_eq!(decimal_string(1234567890), "1234567890");
    assert_eq!(decimal_string(u64::MAX), "18446744073709551615");
    assert_eq!(decimal_width(0), 1);
    assert_eq!(decimal_width(9), 1);
    assert_eq!(decimal_width(10), 2);
    assert_eq!(decimal_width(99999), 5);
    assert_eq!(decimal_width(u64::MAX), 20);
}

#[test]
fn text_helpers() {
    assert_eq!(chars_of("añb"), chars("añb"));
    assert_eq!(string_of(&chars("añb")), "añb");
    assert_eq!(slice_of(&chars("hello"), 1, 3), chars("el"));
    assert_eq!(slice_of(&chars("hello"), 5, 5), chars(""));
    assert!(starts_with(&chars("hello"), &chars("he")));
    assert!(starts_with(&chars("hello"), &chars("")));
    assert!(!starts_with(&chars("he"), &chars("hello")));
    assert!(ends_with(&chars("repo.git"), &chars(".git")));
    assert!(!ends_with(&chars("repo.gi"), &chars(".git")));
    assert!(!ends_with(&chars("git"), &chars(".git")));
    assert!(contains_text(&chars("a github.com b"), &chars("github.com")));
    assert!(contains_text(&chars("github.com"), &chars("github.com")));
    assert!(contains_text(&chars("abc"), &chars("")));
    assert!(!contains_text(&chars("github.co"), &chars("github.com")));
    assert_eq!(find_first(&chars("a/b/c"), '/'), Some(1));
    assert_eq!(find_last(&chars("a/b/c"), '/'), Some(3));
    assert_eq!(find_first(&chars("abc"), '/'), None);
    assert_eq!(find_last(&chars(""), '/'), None);
    assert!(same_text(&chars("dist"), "dist"));
    assert!(!same_text(&chars("dist"), "dists"));
    assert!(!same_text(&chars("Dist"), "dist"));
}

#[test]
fn text_order_is_that_of_the_dictionary() {
    let le = |a: &str, b: &str| text_before_or_equal(&chars(a), &chars(b));
    assert!(le("", ""));
    assert!(le("", "a"));
    assert!(!le("a", ""));
    assert!(le("a", "a"));
    assert!(le("a", "b"));
    assert!(!le("b", "a"));
    assert!(le("ab", "abc"));
    assert!(!le("abc", "ab"));
    assert!(le("B", "a"));
    assert!(le("z", "é"));
    for (a, b) in [("apple", "apricot"), ("x", "xy"), ("Zed", "alpha"), ("é", "z"), ("", "q")] {
        assert_eq!(le(a, b), a.to_string() <= b.to_string());
        assert_eq!(le(b, a), b.to_string() <= a.to_string());
    }
}

#[test]
fn sort_is_stable() {
    let items = vec![
        ("b".to_string(), repo("first-b")),
        ("a".to_string(), repo("first-a")),
        ("b".to_string(), repo("second-b")),
        ("a".to_string(), repo("second-a")),
        ("".to_string(), repo("empty")),
    ];
    let sorted = sort_keyed(items);
    let names: Vec<&str> = sorted.iter().map(|r| r.name.as_str()).collect();
    assert_eq!(names, vec!["empty", "first-a", "second-a", "first-b", "second-b"]);
    assert!(sort_keyed(Vec::new()).is_empty());
}

#[test]
fn path_set_holds_each_path_once() {
    let mut set = PathSet::new();
    assert_eq!(set.len(), 0);
    set.insert("/a".to_string());
    set.insert("/b".to_string());
    set.insert("/a".to_string());
    assert_eq!(set.len(), 2);
    assert!(set.contains(&"/a".to_string()));
    assert!(!set.contains(&"/c".to_string()));
    set.remove(&"/a".to_string());
    set.remove(&"/zzz".to_string());
    assert!(!set.contains(&"/a".to_string()));
    assert!(set.contains(&"/b".to_string()));
    assert_eq!(set.len(), 1);
    set.clear();
    assert_eq!(set.len(), 0);
}

#[test]
fn width_of_the_status_column() {
    assert_eq!(status_width(&repo("x")), 1);
    let dirty = |modified, added, deleted| RepoInfo {
        status: RepoStatus::Dirty { modified, added, deleted },
        ..repo("x")
    };
    assert_eq!(status_width(&dirty(0, 0, 0)), 8);
    assert_eq!(status_width(&dirty(3, 12, 0)), "+12 ~3 -0".len() as u16);
    assert_eq!(status_width(&dirty(100, 9, 1000)), "+9 ~100 -1000".len() as u16);
}

#[test]
fn links() {
    assert_eq!(repo_link("me", "demo"), "https://github.com/me/demo");
    assert_eq!(issue_link("me", "demo", 42), "https://github.com/me/demo/issues/42");
    assert_eq!(new_issue_link("me", "demo"), "https://github.com/me/demo/issues/new");
    assert_eq!(pull_link("me", "demo", 7), "https://github.com/me/demo/pull/7");
}

#[test]
fn lines_in_and_out_of_sight() {
    let area = Rect { x: 4, y: 10, width: 30, height: 5 };
    assert_eq!(zone_of_line(area, 0, 0), Some(row(area, 10)));
    assert_eq!(zone_of_line(area, 4, 0), Some(row(area, 14)));
    assert_eq!(zone_of_line(area, 5, 0), None);
    assert_eq!(zone_of_line(area, 5, 1), Some(row(area, 14)));
    assert_eq!(zone_of_line(area, 2, 3), None);
    assert_eq!(zone_of_line(area, 3, 3), Some(row(area, 10)));
    assert_eq!(zone_of_line(Rect { height: 0, ..area }, 0, 0), None);
}

#[test]
fn zones_of_the_issues_tab() {
    let area = Rect { x: 4, y: 10, width: 30, height: 20 };
    let zones = issue_zones(&with_items(&[5, 9], &[]), area, 0);
    assert_eq!(
        zones,
        vec![
            (row(area, 13), "https://github.com/me/demo/issues/5".to_string()),
            (row(area, 14), "https://github.com/me/demo/issues/9".to_string()),
            (row(area, 16), "https://github.com/me/demo/issues/new".to_string()),
        ]
    );
    let zones = issue_zones(&with_items(&[], &[3]), area, 0);
    assert_eq!(zones, vec![(row(area, 15), "https://github.com/me/demo/issues/new".to_string())]);
    let zones = issue_zones(&with_items(&[5, 9], &[]), area, 4);
    assert_eq!(
        zones,
        vec![
            (row(area, 10), "https://github.com/me/demo/issues/9".to_string()),
            (row(area, 12), "https://github.com/me/demo/issues/new".to_string()),
        ]
    );
    let short = Rect { height: 4, ..area };
    let zones = issue_zones(&with_items(&[5, 9], &[]), short, 0);
    assert_eq!(zones, vec![(row(area, 13), "https://github.com/me/demo/issues/5".to_string())]);
}

#[test]
fn zones_of_the_pull_requests_tab() {
    let area = Rect { x: 0, y: 2, width: 10, height: 20 };
    let zones = pull_zones(&with_items(&[1], &[11, 12, 13]), area, 1);
    assert_eq!(
        zones,
        vec![
            (row(area, 4), "https://github.com/me/demo/pull/11".to_string()),
            (row(area, 5), "https://github.com/me/demo/pull/12".to_string()),
            (row(area, 6), "https://github.com/me/demo/pull/13".to_string()),
        ]
    );
    assert!(pull_zones(&with_items(&[1], &[]), area, 0).is_empty());
}

#[test]
fn no_zones_without_data_or_remote() {
    let area = Rect { x: 0, y: 0, width: 10, height: 20 };
    assert!(issue_zones(&repo("x"), area, 0).is_empty());
    assert!(pull_zones(&repo("x"), area, 0).is_empty());
    let local = RepoInfo { github_repo: None, ..with_items(&[1], &[2]) };
    assert!(issue_zones(&local, area, 0).is_empty());
    assert!(pull_zones(&local, area, 0).is_empty());
    let failed = RepoInfo { github_error: Some("x".to_string()), ..repo("x") };
    assert!(issue_zones(&failed, area, 0).is_empty());
}

#[test]
fn copies_are_equal() {
    let r = with_items(&[1, 2], &[3]);
    assert_eq!(r.duplicate(), r);
    assert_eq!(r.github_data.as_ref().map(|d| d.duplicate()), r.github_data);
    assert_eq!(r.status.duplicate(), RepoStatus::Clean);
}
