use project_dash::app::Message;
use project_dash::cache::TtlCache;
use project_dash::github::{
    build_repo_data, cache_key, fetch_message, finish_fetch, get_cached, invalidate_cached,
    plan_fetch, set_cached, FetchPlan, IssueEntry, IssuePage, PullEntry, PullPage,
};
use project_dash::repo::{GitHubData, GitHubItem};

fn issue(number: u64, title: &str, is_pull_request: bool) -> IssueEntry {
    IssueEntry { number, title: title.to_string(), is_pull_request }
}

fn pull(number: u64, title: Option<&str>) -> PullEntry {
    PullEntry { number, title: title.map(|t| t.to_string()) }
}

fn item(number: u64, title: &str) -> GitHubItem {
    GitHubItem { number, title: title.to_string() }
}

fn counts(issues: Option<u64>, prs: Option<u64>) -> (usize, usize) {
    let data = build_repo_data(
        &IssuePage { total_count: issues, items: Vec::new() },
        &PullPage { total_count: prs, items: Vec::new() },
    );
    (data.open_issues, data.open_prs)
}

fn sample(n: usize) -> GitHubData {
    GitHubData { open_issues: n, open_prs: 0, recent_issues: vec![item(1, "one")], recent_prs: Vec::new() }
}

#[test]
fn issue_count_is_corrected_by_the_pull_requests() {
    assert_eq!(counts(Some(12), Some(5)), (7, 5));
}

#[test]
fn corrected_issue_count_is_never_negative() {
    assert_eq!(counts(Some(3), Some(5)), (0, 5));
    assert_eq!(counts(Some(0), Some(u64::MAX)).0, 0);
    assert_eq!(counts(Some(5), Some(5)), (0, 5));
}

#[test]
fn totals_fall_back_to_the_number_of_items() {
    let issues = IssuePage {
        total_count: None,
        items: vec![issue(1, "a", false), issue(2, "b", true), issue(3, "c", false)],
    };
    let pulls = PullPage { total_count: None, items: vec![pull(2, Some("b"))] };
    let data = build_repo_data(&issues, &pulls);
    assert_eq!(data.open_issues, 2);
    assert_eq!(data.open_prs, 1);
    let data = build_repo_data(&issues, &PullPage { total_count: Some(0), items: Vec::new() });
    assert_eq!(data.open_issues, 3);
    assert_eq!(data.open_prs, 0);
}

#[test]
fn recent_issues_leave_out_pull_requests_and_keep_the_order() {
    let issues = IssuePage {
        total_count: Some(9),
        items: vec![
            issue(10, "first", false),
            issue(11, "a pull request", true),
            issue(12, "second", false),
        ],
    };
    let pulls = PullPage { total_count: Some(1), items: vec![pull(11, Some("a pull request"))] };
    let data = build_repo_data(&issues, &pulls);
    assert_eq!(data.recent_issues, vec![item(10, "first"), item(12, "second")]);
    assert_eq!(data.recent_prs, vec![item(11, "a pull request")]);
    assert_eq!(data.open_issues, 8);
}

#[test]
fn recent_lists_are_capped_at_five() {
    let issues = IssuePage {
        total_count: Some(20),
        items: (1..=8).map(|n| issue(n, "t", n == 2)).collect(),
    };
    let pulls = PullPage { total_count: Some(7), items: (1..=7).map(|n| pull(n, Some("p"))).collect() };
    let data = build_repo_data(&issues, &pulls);
    let numbers: Vec<u64> = data.recent_issues.iter().map(|i| i.number).collect();
    assert_eq!(numbers, vec![1, 3, 4, 5, 6]);
    let numbers: Vec<u64> = data.recent_prs.iter().map(|i| i.number).collect();
    assert_eq!(numbers, vec![1, 2, 3, 4, 5]);
    assert_eq!(data.open_issues, 13);
    assert_eq!(data.open_prs, 7);
}

#[test]
fn pull_request_without_title_gets_a_placeholder() {
    let pulls = PullPage { total_count: None, items: vec![pull(4, None), pull(5, Some(""))] };
    let data = build_repo_data(&IssuePage { total_count: None, items: Vec::new() }, &pulls);
    assert_eq!(data.recent_prs, vec![item(4, "(no title)"), item(5, "")]);
}

#[test]
fn empty_pages_give_empty_data() {
    let data = build_repo_data(
        &IssuePage { total_count: None, items: Vec::new() },
        &PullPage { total_count: None, items: Vec::new() },
    );
    assert_eq!(
        data,
        GitHubData { open_issues: 0, open_prs: 0, recent_issues: Vec::new(), recent_prs: Vec::new() }
    );
}

#[test]
fn cache_key_joins_owner_and_name() {
    assert_eq!(cache_key("rust-lang", "cargo"), "rust-lang/cargo");
    assert_eq!(cache_key("", ""), "/");
}

#[test]
fn cached_data_is_served_for_less_than_an_hour() {
    let mut cache = TtlCache::new();
    assert_eq!(get_cached(&cache, "me", "repo", 0), None);
    set_cached(&mut cache, "me", "repo", &sample(4), 100);
    assert_eq!(get_cached(&cache, "me", "repo", 100), Some(sample(4)));
    assert_eq!(get_cached(&cache, "me", "repo", 3699), Some(sample(4)));
    assert_eq!(get_cached(&cache, "me", "repo", 3700), None);
    assert_eq!(get_cached(&cache, "me", "repo", 99), Some(sample(4)));
    assert_eq!(get_cached(&cache, "me", "other", 100), None);
    assert_eq!(get_cached(&cache, "m", "e/repo", 100), None);
}

#[test]
fn a_write_replaces_the_entry_and_its_time() {
    let mut cache = TtlCache::new();
    set_cached(&mut cache, "me", "repo", &sample(1), 0);
    set_cached(&mut cache, "me", "repo", &sample(2), 3000);
    assert_eq!(get_cached(&cache, "me", "repo", 6000), Some(sample(2)));
    assert_eq!(get_cached(&cache, "me", "repo", 6600), None);
}

#[test]
fn invalidation_removes_one_entry_only() {
    let mut cache = TtlCache::new();
    set_cached(&mut cache, "me", "one", &sample(1), 10);
    set_cached(&mut cache, "me", "two", &sample(2), 10);
    set_cached(&mut cache, "you", "one", &sample(3), 10);
    invalidate_cached(&mut cache, "me", "one");
    assert_eq!(get_cached(&cache, "me", "one", 10), None);
    assert_eq!(get_cached(&cache, "me", "two", 10), Some(sample(2)));
    assert_eq!(get_cached(&cache, "you", "one", 10), Some(sample(3)));
    invalidate_cached(&mut cache, "nobody", "nothing");
    assert_eq!(get_cached(&cache, "me", "two", 10), Some(sample(2)));
}

#[test]
fn fetch_plan_goes_by_the_cache() {
    let mut cache = TtlCache::new();
    assert_eq!(plan_fetch(&cache, "me", "repo", 5), FetchPlan::Query { per_page: 5 });
    set_cached(&mut cache, "me", "repo", &sample(4), 5);
    assert_eq!(plan_fetch(&cache, "me", "repo", 6), FetchPlan::Cached(sample(4)));
    assert_eq!(plan_fetch(&cache, "me", "repo", 3605), FetchPlan::Query { per_page: 5 });
}

#[test]
fn finished_fetch_is_written_to_the_cache() {
    let mut cache = TtlCache::new();
    set_cached(&mut cache, "me", "repo", &sample(99), 0);
    let issues = IssuePage { total_count: Some(12), items: vec![issue(1, "a", false)] };
    let pulls = PullPage { total_count: Some(5), items: vec![pull(2, Some("b"))] };
    let data = finish_fetch(&mut cache, "me", "repo", &issues, &pulls, 50);
    assert_eq!(data.open_issues, 7);
    assert_eq!(data.open_prs, 5);
    assert_eq!(data.recent_issues, vec![item(1, "a")]);
    assert_eq!(data.recent_prs, vec![item(2, "b")]);
    assert_eq!(get_cached(&cache, "me", "repo", 3649), Some(data));
    assert_eq!(get_cached(&cache, "me", "repo", 3650), None);
}

#[test]
fn soft_retry_is_served_from_the_cache_and_force_retry_is_not() {
    let mut cache = TtlCache::new();
    set_cached(&mut cache, "me", "alpha", &sample(1), 0);
    set_cached(&mut cache, "me", "gamma", &sample(2), 0);
    assert_eq!(plan_fetch(&cache, "me", "alpha", 60), FetchPlan::Cached(sample(1)));
    invalidate_cached(&mut cache, "me", "alpha");
    assert_eq!(plan_fetch(&cache, "me", "alpha", 60), FetchPlan::Query { per_page: 5 });
    assert_eq!(plan_fetch(&cache, "me", "gamma", 60), FetchPlan::Cached(sample(2)));
}

#[test]
fn fetch_outcome_becomes_a_message() {
    match fetch_message("/p".to_string(), Ok(sample(1))) {
        Message::GitHubDataReceived { path, data } => {
            assert_eq!(path, "/p");
            assert_eq!(data, sample(1));
        }
        other => panic!("unexpected message {other:?}"),
    }
    match fetch_message("/p".to_string(), Err("bad credentials".to_string())) {
        Message::GitHubError { path, error } => {
            assert_eq!(path, "/p");
            assert_eq!(error, "bad credentials");
        }
        other => panic!("unexpected message {other:?}"),
    }
}

#[test]
fn generic_cache_operations() {
    let mut cache: TtlCache<GitHubData> = TtlCache::new();
    cache.put("k".to_string(), sample(1), 7);
    assert_eq!(cache.get(&"k".to_string(), 7), Some(&sample(1)));
    assert_eq!(cache.get(&"K".to_string(), 7), None);
    cache.put("j".to_string(), sample(2), 8);
    cache.remove(&"k".to_string());
    assert_eq!(cache.get(&"k".to_string(), 8), None);
    assert_eq!(cache.get(&"j".to_string(), 8), Some(&sample(2)));
    cache.clear();
    assert_eq!(cache.get(&"j".to_string(), 8), None);
}
