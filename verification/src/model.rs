use vstd::prelude::*;
use crate::app::{ActivePane, AppState, DetailTab, EffectView, MessageView, Rect};
use crate::repo::{GitHubDataView, RepoInfoView};
use crate::seq_util::first_where;

verus! {

/// The mathematical value of the dashboard's state.
pub struct AppView {
    pub repos: Seq<RepoInfoView>,
    pub selected: Option<usize>,
    pub state: AppState,
    pub scan_path: Seq<char>,
    pub github_token: Option<Seq<char>>,
    pub should_quit: bool,
    pub active_pane: ActivePane,
    pub detail_tab: DetailTab,
    pub detail_scroll: u16,
    pub list_area: Rect,
    pub tab_bar_area: Rect,
    pub detail_content_area: Rect,
    pub click_zones: Seq<(Rect, Seq<char>)>,
    /// The paths of the repositories whose GitHub fetch has not reported back yet.
    pub fetching: Set<Seq<char>>,
}

/// The text of a tab in the tab bar.
pub open spec fn tab_label(tab: DetailTab) -> Seq<char> {
    match tab {
        DetailTab::Changes => "Changes"@,
        DetailTab::Commits => "Commits"@,
        DetailTab::Issues => "Issues"@,
        DetailTab::Prs => "PRs"@,
    }
}

/// The bar reads blank, label, then for each further tab: blank, bar, blank, label. A tab
/// answers for the cells from where the tab before it ends up to the blank behind its own
/// label; this is the column, counted from the bar's left edge, one past that blank.
pub open spec fn tab_span_end(tab: DetailTab) -> int {
    let changes = 1 + tab_label(DetailTab::Changes).len() as int + 1;
    let commits = changes + 2 + tab_label(DetailTab::Commits).len() as int + 1;
    let issues = commits + 2 + tab_label(DetailTab::Issues).len() as int + 1;
    let prs = issues + 2 + tab_label(DetailTab::Prs).len() as int + 1;
    match tab {
        DetailTab::Changes => changes,
        DetailTab::Commits => commits,
        DetailTab::Issues => issues,
        DetailTab::Prs => prs,
    }
}

/// The tab that a click `rel` columns right of the bar's left edge selects. Clicks right of
/// the last label select the last tab.
pub open spec fn tab_at(rel: int) -> DetailTab {
    if rel < tab_span_end(DetailTab::Changes) {
        DetailTab::Changes
    } else if rel < tab_span_end(DetailTab::Commits) {
        DetailTab::Commits
    } else if rel < tab_span_end(DetailTab::Issues) {
        DetailTab::Issues
    } else {
        DetailTab::Prs
    }
}

/// The rows of the list area above the first repository: the border and the header.
pub open spec fn list_header_rows() -> int {
    2
}

/// A repository with what GitHub said of it forgotten: neither data nor error.
pub open spec fn without_github(repo: RepoInfoView) -> RepoInfoView {
    RepoInfoView { github_data: None, github_error: None, ..repo }
}

/// A repository after a fetch succeeded: the data is set, and an earlier error is gone.
pub open spec fn with_github_data(repo: RepoInfoView, data: GitHubDataView) -> RepoInfoView {
    RepoInfoView { github_data: Some(data), github_error: None, ..repo }
}

/// A repository after a fetch failed: the error is set in place of any data.
pub open spec fn with_github_error(repo: RepoInfoView, error: Seq<char>) -> RepoInfoView {
    RepoInfoView { github_data: None, github_error: Some(error), ..repo }
}

impl AppView {
    /// The state before the first scan reports.
    pub open spec fn initial(scan_path: Seq<char>, github_token: Option<Seq<char>>) -> AppView {
        AppView {
            repos: Seq::empty(),
            selected: None,
            state: AppState::Scanning,
            scan_path,
            github_token,
            should_quit: false,
            active_pane: ActivePane::RepoList,
            detail_tab: DetailTab::Changes,
            detail_scroll: 0,
            list_area: Rect { x: 0, y: 0, width: 0, height: 0 },
            tab_bar_area: Rect { x: 0, y: 0, width: 0, height: 0 },
            detail_content_area: Rect { x: 0, y: 0, width: 0, height: 0 },
            click_zones: Seq::empty(),
            fetching: Set::empty(),
        }
    }

    /// The repository under the selection, if the selection points at one.
    pub open spec fn selected_repo(self) -> Option<RepoInfoView> {
        match self.selected {
            Some(i) => if i < self.repos.len() {
                Some(self.repos[i as int])
            } else {
                None
            },
            None => None,
        }
    }

    /// The fetch that the selected repository needs, if it needs one: it has neither data
    /// nor an error, no fetch for it is under way, and it has GitHub coordinates.
    pub open spec fn fetch_request(self) -> Option<EffectView> {
        match self.selected_repo() {
            None => None,
            Some(repo) => {
                if repo.github_data is Some || repo.github_error is Some || self.fetching.contains(
                    repo.path,
                ) {
                    None
                } else {
                    match repo.github_repo {
                        None => None,
                        Some((owner, name)) => Some(
                            EffectView::FetchGitHub {
                                path: repo.path,
                                owner,
                                repo: name,
                                token: self.github_token,
                            },
                        ),
                    }
                }
            },
        }
    }

    /// The state after the selected repository's fetch, if it needs one, was recorded as
    /// under way.
    pub open spec fn fetch_started(self) -> AppView {
        match self.fetch_request() {
            Some(EffectView::FetchGitHub { path, .. }) => AppView {
                fetching: self.fetching.insert(path),
                ..self
            },
            _ => self,
        }
    }

    /// The selected repository's fetch, if it needs one, as a list of effects.
    pub open spec fn fetch_effects(self) -> Seq<EffectView> {
        match self.fetch_request() {
            Some(e) => seq![e],
            None => Seq::empty(),
        }
    }

    /// The selection moved to `index`, with the detail pane back at the top of its first tab.
    pub open spec fn select(self, index: usize) -> AppView {
        AppView {
            selected: Some(index),
            detail_scroll: 0,
            detail_tab: DetailTab::Changes,
            ..self
        }
    }

    /// The position above the selection, wrapping from the first row to the last.
    pub open spec fn index_above(self) -> usize {
        match self.selected {
            Some(i) => if i == 0 {
                (self.repos.len() - 1) as usize
            } else {
                (i - 1) as usize
            },
            None => 0,
        }
    }

    /// The position below the selection, wrapping from the last row to the first.
    pub open spec fn index_below(self) -> usize {
        match self.selected {
            Some(i) => if i >= self.repos.len() - 1 {
                0
            } else {
                (i + 1) as usize
            },
            None => 0,
        }
    }

    /// The position of the first repository at `path`, if there is one.
    pub open spec fn repo_at(self, path: Seq<char>) -> Option<int> {
        first_where(self.repos, |r: RepoInfoView| r.path == path)
    }

    /// The address of the first clickable zone that holds the cell, if there is one.
    pub open spec fn zone_url(self, column: u16, row: u16) -> Option<Seq<char>> {
        match first_where(self.click_zones, |z: (Rect, Seq<char>)| z.0.contains(column, row)) {
            Some(i) => Some(self.click_zones[i].1),
            None => None,
        }
    }

    /// The state with what GitHub said of the selected repository forgotten, and with its
    /// fetch no longer recorded as under way.
    pub open spec fn selected_cleared(self) -> AppView {
        match self.selected_repo() {
            Some(repo) => AppView {
                repos: self.repos.update(self.selected->0 as int, without_github(repo)),
                fetching: self.fetching.remove(repo.path),
                ..self
            },
            None => self,
        }
    }

    /// Dropping the selected repository's entry from the GitHub cache, where it has
    /// GitHub coordinates.
    pub open spec fn invalidate_effects(self) -> Seq<EffectView> {
        match self.selected_repo() {
            Some(repo) => match repo.github_repo {
                Some((owner, name)) => seq![
                    EffectView::InvalidateGitHubCache { owner, repo: name },
                ],
                None => Seq::empty(),
            },
            None => Seq::empty(),
        }
    }

    /// The state while a new scan runs: no repositories, no selection.
    pub open spec fn rescanning(self) -> AppView {
        AppView {
            state: AppState::Scanning,
            repos: Seq::empty(),
            selected: None,
            detail_scroll: 0,
            ..self
        }
    }
}

/// Moving the selection up (list pane) or scrolling up (detail pane).
pub open spec fn move_up(app: AppView) -> (AppView, Seq<EffectView>) {
    match app.active_pane {
        ActivePane::RepoList => if app.repos.len() == 0 {
            (app, Seq::empty())
        } else {
            let moved = app.select(app.index_above());
            (moved.fetch_started(), moved.fetch_effects())
        },
        ActivePane::Detail => (
            AppView {
                detail_scroll: if app.detail_scroll == 0 {
                    0
                } else {
                    (app.detail_scroll - 1) as u16
                },
                ..app
            },
            Seq::empty(),
        ),
    }
}

/// Moving the selection down (list pane) or scrolling down (detail pane).
pub open spec fn move_down(app: AppView) -> (AppView, Seq<EffectView>) {
    match app.active_pane {
        ActivePane::RepoList => if app.repos.len() == 0 {
            (app, Seq::empty())
        } else {
            let moved = app.select(app.index_below());
            (moved.fetch_started(), moved.fetch_effects())
        },
        ActivePane::Detail => (
            AppView {
                detail_scroll: if app.detail_scroll == u16::MAX {
                    u16::MAX
                } else {
                    (app.detail_scroll + 1) as u16
                },
                ..app
            },
            Seq::empty(),
        ),
    }
}

/// Moving the focus to the other pane.
pub open spec fn switch_pane(app: AppView) -> (AppView, Seq<EffectView>) {
    let switched = AppView {
        active_pane: match app.active_pane {
            ActivePane::RepoList => ActivePane::Detail,
            ActivePane::Detail => ActivePane::RepoList,
        },
        detail_scroll: 0,
        ..app
    };
    (switched.fetch_started(), switched.fetch_effects())
}

/// A click on the cell (`column`, `row`): on a row of the list, on the tab bar, or on a
/// clickable zone, tried in this order.
pub open spec fn click(app: AppView, column: u16, row: u16) -> (AppView, Seq<EffectView>) {
    if app.list_area.contains(column, row) {
        let index = row - (app.list_area.y + list_header_rows());
        if 0 <= index < app.repos.len() {
            let chosen = AppView { active_pane: ActivePane::RepoList, ..app.select(index as usize) };
            (chosen.fetch_started(), chosen.fetch_effects())
        } else {
            (app, Seq::empty())
        }
    } else if app.tab_bar_area.top_row_contains(column, row) {
        (
            AppView {
                detail_tab: tab_at(column - app.tab_bar_area.x),
                detail_scroll: 0,
                ..app
            },
            Seq::empty(),
        )
    } else {
        match app.zone_url(column, row) {
            Some(url) => (app, seq![EffectView::OpenUrl { url }]),
            None => (app, Seq::empty()),
        }
    }
}

/// Asking GitHub again for the selected repository. With `force`, its cache entry is
/// dropped first; without, a cache entry that is still valid answers the new fetch.
pub open spec fn retry(app: AppView, force: bool) -> (AppView, Seq<EffectView>) {
    let cleared = app.selected_cleared();
    let invalidate = if force {
        app.invalidate_effects()
    } else {
        Seq::empty()
    };
    (cleared.fetch_started(), invalidate + cleared.fetch_effects())
}

/// Refreshing: in the detail pane a retry for the selected repository, in the list pane a
/// new scan. With `force`, the scan cache is emptied before the scan.
pub open spec fn refresh(app: AppView, force: bool) -> (AppView, Seq<EffectView>) {
    match app.active_pane {
        ActivePane::Detail => retry(app, force),
        ActivePane::RepoList => {
            let scan = seq![EffectView::StartScan { path: app.scan_path }];
            (
                app.rescanning(),
                if force {
                    seq![EffectView::InvalidateScanCache] + scan
                } else {
                    scan
                },
            )
        },
    }
}

/// The result of a scan: the list is replaced, no fetch is under way any more, and the
/// first repository, if there is one, is selected.
pub open spec fn repos_scanned(app: AppView, repos: Seq<RepoInfoView>) -> AppView {
    AppView {
        repos,
        state: AppState::Ready,
        fetching: Set::empty(),
        selected: if repos.len() > 0 {
            Some(0usize)
        } else {
            app.selected
        },
        ..app
    }
}

/// The result of a fetch for the repository at `path`. A path that the list no longer
/// holds changes nothing.
pub open spec fn github_done(app: AppView, path: Seq<char>, outcome: Result<GitHubDataView, Seq<char>>) -> AppView {
    match app.repo_at(path) {
        Some(i) => AppView {
            repos: app.repos.update(
                i,
                match outcome {
                    Ok(data) => with_github_data(app.repos[i], data),
                    Err(error) => with_github_error(app.repos[i], error),
                },
            ),
            fetching: app.fetching.remove(path),
            ..app
        },
        None => app,
    }
}

/// The transition of the dashboard: the state after `msg`, and the work it asks for, in
/// the order in which it is to be done.
pub open spec fn step(app: AppView, msg: MessageView) -> (AppView, Seq<EffectView>) {
    match msg {
        MessageView::Quit => (AppView { should_quit: true, ..app }, Seq::empty()),
        MessageView::MoveUp => move_up(app),
        MessageView::MoveDown => move_down(app),
        MessageView::SwitchPane => switch_pane(app),
        MessageView::FocusList => (
            AppView { active_pane: ActivePane::RepoList, detail_scroll: 0, ..app },
            Seq::empty(),
        ),
        MessageView::NextTab => (
            AppView { detail_tab: app.detail_tab.next_tab(), detail_scroll: 0, ..app },
            Seq::empty(),
        ),
        MessageView::PrevTab => (
            AppView { detail_tab: app.detail_tab.prev_tab(), detail_scroll: 0, ..app },
            Seq::empty(),
        ),
        MessageView::Click { column, row } => click(app, column, row),
        MessageView::RetryGitHub => retry(app, false),
        MessageView::ForceRetryGitHub => retry(app, true),
        MessageView::Refresh => refresh(app, false),
        MessageView::ForceRefresh => refresh(app, true),
        MessageView::Tick => (app, Seq::empty()),
        MessageView::ReposScanned(repos) => (repos_scanned(app, repos), Seq::empty()),
        MessageView::GitHubDataReceived { path, data } => (
            github_done(app, path, Ok(data)),
            Seq::empty(),
        ),
        MessageView::GitHubError { path, error } => (
            github_done(app, path, Err(error)),
            Seq::empty(),
        ),
    }
}

} // verus!
