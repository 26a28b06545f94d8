use project_dash::app::{ActivePane, App, AppState, DetailTab, Effect, Message, Rect};
use project_dash::repo::{GitHubData, GitHubItem, RepoInfo, RepoStatus};

fn repo(name: &str, github: Option<(&str, &str)>) -> RepoInfo {
    RepoInfo {
        name: name.to_string(),
        path: format!("/work/{name}"),
        status: RepoStatus::Clean,
        current_branch: "main".to_string(),
        branches: vec!["main".to_string()],
        remote_url: github.map(|(o, n)| format!("git@github.com:{o}/{n}.git")),
        github_repo: github.map(|(o, n)| (o.to_string(), n.to_string())),
        github_data: None,
        github_error: None,
        recent_commits: Vec::new(),
        changed_files: Vec::new(),
    }
}

fn data(issues: usize) -> GitHubData {
    GitHubData {
        open_issues: issues,
        open_prs: 1,
        recent_issues: vec![GitHubItem { number: 7, title: "bug".to_string() }],
        recent_prs: Vec::new(),
    }
}

fn three_repos() -> App {
    let mut app = App::new("/work".to_string(), Some("SECRET-REDACTED".to_string()));
    let effects = app.update(Message::ReposScanned(vec![
        repo("alpha", Some(("me", "alpha"))),
        repo("beta", None),
        repo("gamma", Some(("me", "gamma"))),
    ]));
    assert!(effects.is_empty());
    app
}

fn fetch(name: &str) -> Effect {
    Effect::FetchGitHub {
        path: format!("/work/{name}"),
        owner: "me".to_string(),
        repo: name.to_string(),
        token: Some("SECRET-REDACTED".to_string()),
    }
}

#[test]
fn new_app_is_scanning_and_empty() {
    let app = App::new("/work".to_string(), None);
    assert!(app.repos.is_empty());
    assert_eq!(app.selected, None);
    assert_eq!(app.state, AppState::Scanning);
    assert_eq!(app.scan_path, "/work");
    assert_eq!(app.github_token, None);
    assert!(!app.should_quit);
    assert_eq!(app.active_pane, ActivePane::RepoList);
    assert_eq!(app.detail_tab, DetailTab::Changes);
    assert_eq!(app.detail_scroll, 0);
    assert_eq!(app.list_area, Rect { x: 0, y: 0, width: 0, height: 0 });
    assert!(app.click_zones.is_empty());
    assert_eq!(app.github_fetching.len(), 0);
    assert!(app.selected_repo().is_none());
}

#[test]
fn scan_result_selects_the_first_repository() {
    let app = three_repos();
    assert_eq!(app.state, AppState::Ready);
    assert_eq!(app.selected, Some(0));
    assert_eq!(app.repos.len(), 3);
    assert_eq!(app.selected_repo().map(|r| r.name.as_str()), Some("alpha"));
}

#[test]
fn empty_scan_result_keeps_the_selection() {
    let mut app = App::new("/work".to_string(), None);
    app.update(Message::ReposScanned(Vec::new()));
    assert_eq!(app.state, AppState::Ready);
    assert_eq!(app.selected, None);
    assert!(app.update(Message::MoveDown).is_empty());
    assert!(app.update(Message::MoveUp).is_empty());
    assert_eq!(app.selected, None);
}

#[test]
fn quit_sets_the_flag() {
    let mut app = three_repos();
    assert!(app.update(Message::Quit).is_empty());
    assert!(app.should_quit);
}

#[test]
fn tick_changes_nothing() {
    let mut app = three_repos();
    assert!(app.update(Message::Tick).is_empty());
    assert_eq!(app.selected, Some(0));
    assert_eq!(app.state, AppState::Ready);
}

#[test]
fn selection_wraps_around() {
    let mut app = three_repos();
    app.update(Message::MoveUp);
    assert_eq!(app.selected, Some(2));
    app.update(Message::MoveDown);
    assert_eq!(app.selected, Some(0));
    app.update(Message::MoveDown);
    assert_eq!(app.selected, Some(1));
    app.update(Message::MoveDown);
    assert_eq!(app.selected, Some(2));
    app.update(Message::MoveUp);
    assert_eq!(app.selected, Some(1));
}

#[test]
fn moving_resets_scroll_and_tab() {
    let mut app = three_repos();
    app.update(Message::NextTab);
    app.detail_scroll = 9;
    app.update(Message::MoveDown);
    assert_eq!(app.detail_tab, DetailTab::Changes);
    assert_eq!(app.detail_scroll, 0);
}

#[test]
fn moving_onto_a_github_repository_asks_for_one_fetch() {
    let mut app = three_repos();
    assert_eq!(app.update(Message::MoveUp), vec![fetch("gamma")]);
    assert!(app.github_fetching.contains(&"/work/gamma".to_string()));
    assert_eq!(app.github_fetching.len(), 1);
}

#[test]
fn moving_onto_a_repository_without_remote_asks_for_nothing() {
    let mut app = three_repos();
    assert!(app.update(Message::MoveDown).is_empty());
    assert_eq!(app.selected, Some(1));
    assert_eq!(app.github_fetching.len(), 0);
}

#[test]
fn selecting_twice_before_the_result_fetches_once() {
    let mut app = three_repos();
    let mut fetches = 0;
    for msg in [Message::MoveUp, Message::MoveDown, Message::MoveUp, Message::SwitchPane, Message::SwitchPane] {
        for effect in app.update(msg) {
            if effect == fetch("gamma") {
                fetches += 1;
            }
        }
    }
    assert_eq!(app.selected, Some(2));
    assert_eq!(fetches, 1);
}

#[test]
fn switch_pane_toggles_and_fetches() {
    let mut app = three_repos();
    app.detail_scroll = 4;
    assert_eq!(app.update(Message::SwitchPane), vec![fetch("alpha")]);
    assert_eq!(app.active_pane, ActivePane::Detail);
    assert_eq!(app.detail_scroll, 0);
    assert!(app.update(Message::SwitchPane).is_empty());
    assert_eq!(app.active_pane, ActivePane::RepoList);
}

#[test]
fn focus_list_returns_to_the_list() {
    let mut app = three_repos();
    app.update(Message::SwitchPane);
    app.detail_scroll = 3;
    assert!(app.update(Message::FocusList).is_empty());
    assert_eq!(app.active_pane, ActivePane::RepoList);
    assert_eq!(app.detail_scroll, 0);
}

#[test]
fn detail_pane_scrolls_and_saturates() {
    let mut app = three_repos();
    app.update(Message::SwitchPane);
    assert!(app.update(Message::MoveUp).is_empty());
    assert_eq!(app.detail_scroll, 0);
    app.update(Message::MoveDown);
    app.update(Message::MoveDown);
    assert_eq!(app.detail_scroll, 2);
    app.update(Message::MoveUp);
    assert_eq!(app.detail_scroll, 1);
    assert_eq!(app.selected, Some(0));
    app.detail_scroll = u16::MAX;
    app.update(Message::MoveDown);
    assert_eq!(app.detail_scroll, u16::MAX);
}

#[test]
fn tabs_cycle_both_ways() {
    assert_eq!(DetailTab::Changes.next(), DetailTab::Commits);
    assert_eq!(DetailTab::Commits.next(), DetailTab::Issues);
    assert_eq!(DetailTab::Issues.next(), DetailTab::Prs);
    assert_eq!(DetailTab::Prs.next(), DetailTab::Changes);
    assert_eq!(DetailTab::Changes.prev(), DetailTab::Prs);
    assert_eq!(DetailTab::Commits.prev(), DetailTab::Changes);
    assert_eq!(DetailTab::Issues.prev(), DetailTab::Commits);
    assert_eq!(DetailTab::Prs.prev(), DetailTab::Issues);
    let mut app = three_repos();
    app.detail_scroll = 5;
    app.update(Message::PrevTab);
    assert_eq!(app.detail_tab, DetailTab::Prs);
    assert_eq!(app.detail_scroll, 0);
    app.update(Message::NextTab);
    assert_eq!(app.detail_tab, DetailTab::Changes);
}

#[test]
fn received_data_is_stored_and_clears_the_error() {
    let mut app = three_repos();
    app.update(Message::SwitchPane);
    app.update(Message::GitHubError { path: "/work/alpha".to_string(), error: "rate limit".to_string() });
    assert_eq!(app.repos[0].github_error, Some("rate limit".to_string()));
    assert_eq!(app.repos[0].github_data, None);
    assert_eq!(app.github_fetching.len(), 0);
    let effects = app.update(Message::GitHubDataReceived { path: "/work/alpha".to_string(), data: data(3) });
    assert!(effects.is_empty());
    assert_eq!(app.repos[0].github_data, Some(data(3)));
    assert_eq!(app.repos[0].github_error, None);
    assert_eq!(app.repos[1].github_data, None);
}

#[test]
fn an_error_takes_the_place_of_data() {
    let mut app = three_repos();
    app.update(Message::GitHubDataReceived { path: "/work/gamma".to_string(), data: data(1) });
    app.update(Message::GitHubError { path: "/work/gamma".to_string(), error: "offline".to_string() });
    assert_eq!(app.repos[2].github_data, None);
    assert_eq!(app.repos[2].github_error, Some("offline".to_string()));
}

#[test]
fn stale_result_is_a_no_op() {
    let mut app = three_repos();
    app.update(Message::MoveUp);
    let before = app.repos.clone();
    let effects = app.update(Message::GitHubDataReceived { path: "/old/removed".to_string(), data: data(2) });
    assert!(effects.is_empty());
    assert_eq!(app.repos, before);
    assert_eq!(app.selected, Some(2));
    assert!(app.github_fetching.contains(&"/work/gamma".to_string()));
    let effects = app.update(Message::GitHubError { path: "/old/removed".to_string(), error: "x".to_string() });
    assert!(effects.is_empty());
    assert_eq!(app.repos, before);
}

#[test]
fn result_after_a_rescan_replaced_the_list_is_ignored() {
    let mut app = three_repos();
    app.update(Message::MoveUp);
    assert_eq!(app.update(Message::Refresh), vec![Effect::StartScan { path: "/work".to_string() }]);
    assert!(app.repos.is_empty());
    app.update(Message::GitHubDataReceived { path: "/work/gamma".to_string(), data: data(2) });
    assert!(app.repos.is_empty());
    app.update(Message::ReposScanned(vec![repo("delta", None)]));
    app.update(Message::GitHubDataReceived { path: "/work/gamma".to_string(), data: data(2) });
    assert_eq!(app.repos, vec![repo("delta", None)]);
    assert_eq!(app.github_fetching.len(), 0);
}

#[test]
fn a_repository_with_data_or_error_is_not_fetched_again() {
    let mut app = three_repos();
    app.update(Message::GitHubDataReceived { path: "/work/alpha".to_string(), data: data(2) });
    app.update(Message::GitHubError { path: "/work/gamma".to_string(), error: "x".to_string() });
    assert!(app.update(Message::SwitchPane).is_empty());
    assert!(app.update(Message::SwitchPane).is_empty());
    assert!(app.update(Message::MoveUp).is_empty());
    assert_eq!(app.selected, Some(2));
}

#[test]
fn soft_refresh_in_list_pane_rescans() {
    let mut app = three_repos();
    app.detail_scroll = 3;
    let effects = app.update(Message::Refresh);
    assert_eq!(effects, vec![Effect::StartScan { path: "/work".to_string() }]);
    assert_eq!(app.state, AppState::Scanning);
    assert!(app.repos.is_empty());
    assert_eq!(app.selected, None);
    assert_eq!(app.detail_scroll, 0);
}

#[test]
fn hard_refresh_in_list_pane_empties_the_scan_cache_first() {
    let mut app = three_repos();
    let effects = app.update(Message::ForceRefresh);
    assert_eq!(
        effects,
        vec![Effect::InvalidateScanCache, Effect::StartScan { path: "/work".to_string() }]
    );
    assert_eq!(app.state, AppState::Scanning);
    assert!(app.repos.is_empty());
}

#[test]
fn retry_clears_and_fetches_again_without_touching_the_cache() {
    let mut app = three_repos();
    app.update(Message::GitHubError { path: "/work/alpha".to_string(), error: "x".to_string() });
    let effects = app.update(Message::RetryGitHub);
    assert_eq!(effects, vec![fetch("alpha")]);
    assert_eq!(app.repos[0].github_error, None);
    assert_eq!(app.repos[0].github_data, None);
    assert!(app.github_fetching.contains(&"/work/alpha".to_string()));
}

#[test]
fn retry_while_a_fetch_is_under_way_starts_a_new_one() {
    let mut app = three_repos();
    assert_eq!(app.update(Message::SwitchPane), vec![fetch("alpha")]);
    assert_eq!(app.update(Message::RetryGitHub), vec![fetch("alpha")]);
    assert_eq!(app.github_fetching.len(), 1);
}

#[test]
fn force_retry_invalidates_only_the_selected_repository() {
    let mut app = three_repos();
    app.update(Message::GitHubDataReceived { path: "/work/alpha".to_string(), data: data(2) });
    app.update(Message::GitHubDataReceived { path: "/work/gamma".to_string(), data: data(5) });
    let effects = app.update(Message::ForceRetryGitHub);
    assert_eq!(
        effects,
        vec![
            Effect::InvalidateGitHubCache { owner: "me".to_string(), repo: "alpha".to_string() },
            fetch("alpha"),
        ]
    );
    assert_eq!(app.repos[0].github_data, None);
    assert_eq!(app.repos[2].github_data, Some(data(5)));
}

#[test]
fn retry_without_remote_or_selection_does_nothing() {
    let mut app = three_repos();
    app.update(Message::MoveDown);
    assert!(app.update(Message::RetryGitHub).is_empty());
    assert!(app.update(Message::ForceRetryGitHub).is_empty());
    let mut empty = App::new("/work".to_string(), None);
    assert!(empty.update(Message::RetryGitHub).is_empty());
    assert!(empty.update(Message::ForceRetryGitHub).is_empty());
}

#[test]
fn refresh_in_detail_pane_is_a_retry() {
    let mut app = three_repos();
    app.update(Message::SwitchPane);
    app.update(Message::GitHubError { path: "/work/alpha".to_string(), error: "x".to_string() });
    assert_eq!(app.update(Message::Refresh), vec![fetch("alpha")]);
    assert_eq!(app.repos.len(), 3);
    assert_eq!(app.state, AppState::Ready);
    app.update(Message::GitHubDataReceived { path: "/work/alpha".to_string(), data: data(2) });
    assert_eq!(
        app.update(Message::ForceRefresh),
        vec![
            Effect::InvalidateGitHubCache { owner: "me".to_string(), repo: "alpha".to_string() },
            fetch("alpha"),
        ]
    );
    assert_eq!(app.repos.len(), 3);
}

#[test]
fn scan_result_clears_the_fetches_under_way() {
    let mut app = three_repos();
    app.update(Message::MoveUp);
    assert_eq!(app.github_fetching.len(), 1);
    app.update(Message::ReposScanned(vec![repo("gamma", Some(("me", "gamma")))]));
    assert_eq!(app.github_fetching.len(), 0);
    assert_eq!(app.selected, Some(0));
    assert_eq!(app.update(Message::SwitchPane), vec![fetch("gamma")]);
}

#[test]
fn click_on_a_list_row_selects_it() {
    let mut app = three_repos();
    app.list_area = Rect { x: 0, y: 1, width: 20, height: 10 };
    app.update(Message::SwitchPane);
    app.update(Message::NextTab);
    let effects = app.update(Message::Click { column: 5, row: 5 });
    assert_eq!(effects, vec![fetch("gamma")]);
    assert_eq!(app.selected, Some(2));
    assert_eq!(app.active_pane, ActivePane::RepoList);
    assert_eq!(app.detail_tab, DetailTab::Changes);
    let effects = app.update(Message::Click { column: 19, row: 3 });
    assert!(effects.is_empty());
    assert_eq!(app.selected, Some(0));
}

#[test]
fn click_on_list_border_header_or_below_the_rows_does_nothing() {
    let mut app = three_repos();
    app.list_area = Rect { x: 0, y: 1, width: 20, height: 10 };
    app.click_zones = vec![(Rect { x: 0, y: 0, width: 100, height: 100 }, "https://x".to_string())];
    app.update(Message::MoveDown);
    for row in [1, 2, 6, 10] {
        assert!(app.update(Message::Click { column: 3, row }).is_empty());
        assert_eq!(app.selected, Some(1));
    }
}

#[test]
fn click_on_the_tab_bar_selects_the_tab() {
    let mut app = three_repos();
    app.tab_bar_area = Rect { x: 30, y: 7, width: 40, height: 1 };
    let cases = [
        (30, DetailTab::Changes),
        (38, DetailTab::Changes),
        (39, DetailTab::Commits),
        (48, DetailTab::Commits),
        (49, DetailTab::Issues),
        (57, DetailTab::Issues),
        (58, DetailTab::Prs),
        (69, DetailTab::Prs),
    ];
    for (column, tab) in cases {
        app.detail_scroll = 2;
        assert!(app.update(Message::Click { column, row: 7 }).is_empty());
        assert_eq!(app.detail_tab, tab);
        assert_eq!(app.detail_scroll, 0);
    }
    app.update(Message::Click { column: 70, row: 7 });
    assert_eq!(app.detail_tab, DetailTab::Prs);
    app.update(Message::Click { column: 31, row: 8 });
    assert_eq!(app.detail_tab, DetailTab::Prs);
}

#[test]
fn click_on_a_zone_opens_its_address() {
    let mut app = three_repos();
    app.click_zones = vec![
        (Rect { x: 30, y: 10, width: 40, height: 1 }, "https://github.com/me/alpha/issues/7".to_string()),
        (Rect { x: 30, y: 10, width: 40, height: 3 }, "https://github.com/me/alpha/issues/new".to_string()),
    ];
    assert_eq!(
        app.update(Message::Click { column: 30, row: 10 }),
        vec![Effect::OpenUrl { url: "https://github.com/me/alpha/issues/7".to_string() }]
    );
    assert_eq!(
        app.update(Message::Click { column: 69, row: 12 }),
        vec![Effect::OpenUrl { url: "https://github.com/me/alpha/issues/new".to_string() }]
    );
    assert!(app.update(Message::Click { column: 70, row: 10 }).is_empty());
    assert!(app.update(Message::Click { column: 29, row: 10 }).is_empty());
    assert!(app.update(Message::Click { column: 30, row: 13 }).is_empty());
}

#[test]
fn tab_labels() {
    assert_eq!(DetailTab::Changes.label(), "Changes");
    assert_eq!(DetailTab::Commits.label(), "Commits");
    assert_eq!(DetailTab::Issues.label(), "Issues");
    assert_eq!(DetailTab::Prs.label(), "PRs");
}

#[test]
fn rect_at_the_edge_of_the_coordinate_range() {
    let r = Rect { x: u16::MAX, y: u16::MAX, width: 1, height: 1 };
    assert!(r.hit(u16::MAX, u16::MAX));
    assert!(!r.hit(u16::MAX - 1, u16::MAX));
    assert!(!Rect::default().hit(0, 0));
    assert_eq!(Rect::default(), Rect { x: 0, y: 0, width: 0, height: 0 });
}
