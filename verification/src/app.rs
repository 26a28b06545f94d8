use vstd::prelude::*;
use crate::path_set::PathSet;
use crate::repo::{GitHubData, GitHubDataView, RepoInfo, RepoInfoView};
use crate::seq_util::{lemma_first_where_none, lemma_first_where_some};
use crate::model::{
    click, github_done, move_down, move_up, refresh, repos_scanned, retry, step, switch_pane,
    tab_at, tab_label, with_github_data, with_github_error, without_github, AppView,
};
use crate::text::copy_of;
use vstd::string::*;

verus! {

/// Which of the two panes has the keyboard focus.
#[derive(Debug, Clone, Copy, PartialEq, Eq, Structural)]
pub enum ActivePane {
    RepoList,
    Detail,
}

/// The tab shown in the detail pane.
#[derive(Debug, Clone, Copy, PartialEq, Eq, Structural)]
pub enum DetailTab {
    Changes,
    Commits,
    Issues,
    Prs,
}

impl DetailTab {
    /// The position of a tab in the bar, counted from the left.
    pub open spec fn index(self) -> int {
        match self {
            DetailTab::Changes => 0,
            DetailTab::Commits => 1,
            DetailTab::Issues => 2,
            DetailTab::Prs => 3,
        }
    }

    /// The tab to the right, wrapping from the last to the first.
    pub open spec fn next_tab(self) -> Self {
        match self {
            DetailTab::Changes => DetailTab::Commits,
            DetailTab::Commits => DetailTab::Issues,
            DetailTab::Issues => DetailTab::Prs,
            DetailTab::Prs => DetailTab::Changes,
        }
    }

    /// The tab to the left, wrapping from the first to the last.
    pub open spec fn prev_tab(self) -> Self {
        match self {
            DetailTab::Changes => DetailTab::Prs,
            DetailTab::Commits => DetailTab::Changes,
            DetailTab::Issues => DetailTab::Commits,
            DetailTab::Prs => DetailTab::Issues,
        }
    }

    /// The text of the tab in the tab bar.
    pub fn label(self) -> (text: &'static str)
        ensures
            text@ == tab_label(self),
    {
        match self {
            DetailTab::Changes => "Changes",
            DetailTab::Commits => "Commits",
            DetailTab::Issues => "Issues",
            DetailTab::Prs => "PRs",
        }
    }

    /// The tab to the right, wrapping from the last to the first.
    pub fn next(self) -> (r: Self)
        ensures
            r == self.next_tab(),
            r.index() == (self.index() + 1) % 4,
    {
        match self {
            DetailTab::Changes => DetailTab::Commits,
            DetailTab::Commits => DetailTab::Issues,
            DetailTab::Issues => DetailTab::Prs,
            DetailTab::Prs => DetailTab::Changes,
        }
    }

    /// The tab to the left, wrapping from the first to the last.
    pub fn prev(self) -> (r: Self)
        ensures
            r == self.prev_tab(),
            r.index() == (self.index() + 3) % 4,
    {
        match self {
            DetailTab::Changes => DetailTab::Prs,
            DetailTab::Commits => DetailTab::Changes,
            DetailTab::Issues => DetailTab::Commits,
            DetailTab::Prs => DetailTab::Issues,
        }
    }
}

/// Whether the first scan is still running.
#[derive(Debug, Clone, Copy, PartialEq, Eq, Structural)]
pub enum AppState {
    Scanning,
    Ready,
}

/// A rectangle of terminal cells: its top left cell, its width and its height.
#[derive(Debug, Clone, Copy, PartialEq, Eq, Structural)]
pub struct Rect {
    pub x: u16,
    pub y: u16,
    pub width: u16,
    pub height: u16,
}

impl View for Rect {
    type V = Rect;

    open spec fn view(&self) -> Rect {
        *self
    }
}

impl DeepView for Rect {
    type V = Rect;

    open spec fn deep_view(&self) -> Rect {
        *self
    }
}

impl Default for Rect {
    fn default() -> (r: Rect)
        ensures
            r == (Rect { x: 0, y: 0, width: 0, height: 0 }),
    {
        Rect { x: 0, y: 0, width: 0, height: 0 }
    }
}

impl Rect {
    /// The cell (`column`, `row`) lies inside the rectangle.
    pub open spec fn contains(self, column: u16, row: u16) -> bool {
        &&& self.x <= column < self.x + self.width
        &&& self.y <= row < self.y + self.height
    }

    /// The cell (`column`, `row`) lies in the row `self.y`, between the left and right edge.
    pub open spec fn top_row_contains(self, column: u16, row: u16) -> bool {
        &&& row == self.y
        &&& self.x <= column < self.x + self.width
    }

    /// Tells whether a cell lies inside the rectangle.
    pub fn hit(&self, column: u16, row: u16) -> (b: bool)
        ensures
            b == self.contains(column, row),
    {
        column >= self.x && (column as u32) < self.x as u32 + self.width as u32 && row >= self.y
            && (row as u32) < self.y as u32 + self.height as u32
    }
}

/// What the event loop hands to [`App::update`].
#[derive(Debug)]
pub enum Message {
    Quit,
    MoveUp,
    MoveDown,
    Refresh,
    ForceRefresh,
    RetryGitHub,
    ForceRetryGitHub,
    Tick,
    SwitchPane,
    FocusList,
    NextTab,
    PrevTab,
    Click { column: u16, row: u16 },
    ReposScanned(Vec<RepoInfo>),
    GitHubDataReceived { path: String, data: GitHubData },
    GitHubError { path: String, error: String },
}

/// The mathematical value of a [`Message`].
pub enum MessageView {
    Quit,
    MoveUp,
    MoveDown,
    Refresh,
    ForceRefresh,
    RetryGitHub,
    ForceRetryGitHub,
    Tick,
    SwitchPane,
    FocusList,
    NextTab,
    PrevTab,
    Click { column: u16, row: u16 },
    ReposScanned(Seq<RepoInfoView>),
    GitHubDataReceived { path: Seq<char>, data: GitHubDataView },
    GitHubError { path: Seq<char>, error: Seq<char> },
}

impl View for Message {
    type V = MessageView;

    open spec fn view(&self) -> MessageView {
        match self {
            Message::Quit => MessageView::Quit,
            Message::MoveUp => MessageView::MoveUp,
            Message::MoveDown => MessageView::MoveDown,
            Message::Refresh => MessageView::Refresh,
            Message::ForceRefresh => MessageView::ForceRefresh,
            Message::RetryGitHub => MessageView::RetryGitHub,
            Message::ForceRetryGitHub => MessageView::ForceRetryGitHub,
            Message::Tick => MessageView::Tick,
            Message::SwitchPane => MessageView::SwitchPane,
            Message::FocusList => MessageView::FocusList,
            Message::NextTab => MessageView::NextTab,
            Message::PrevTab => MessageView::PrevTab,
            Message::Click { column, row } => MessageView::Click { column: *column, row: *row },
            Message::ReposScanned(repos) => MessageView::ReposScanned(repos.deep_view()),
            Message::GitHubDataReceived { path, data } => MessageView::GitHubDataReceived {
                path: path@,
                data: data@,
            },
            Message::GitHubError { path, error } => MessageView::GitHubError {
                path: path@,
                error: error@,
            },
        }
    }
}

/// Work that [`App::update`] asks the event loop to do. The state machine itself never
/// blocks: a scan or a fetch runs elsewhere and reports back with a [`Message`].
#[derive(Debug, Clone, PartialEq, Eq)]
pub enum Effect {
    /// Drop every entry of the scan cache.
    InvalidateScanCache,
    /// Scan the tree under `path` and report with `Message::ReposScanned`.
    StartScan { path: String },
    /// Drop the entry of `owner/repo` from the GitHub cache.
    InvalidateGitHubCache { owner: String, repo: String },
    /// Fetch the GitHub data of `owner/repo` for the repository at `path` and report with
    /// `Message::GitHubDataReceived` or `Message::GitHubError`.
    FetchGitHub { path: String, owner: String, repo: String, token: Option<String> },
    /// Open `url` in the user's browser; the outcome is ignored.
    OpenUrl { url: String },
}

/// The mathematical value of an [`Effect`].
pub enum EffectView {
    InvalidateScanCache,
    StartScan { path: Seq<char> },
    InvalidateGitHubCache { owner: Seq<char>, repo: Seq<char> },
    FetchGitHub { path: Seq<char>, owner: Seq<char>, repo: Seq<char>, token: Option<Seq<char>> },
    OpenUrl { url: Seq<char> },
}

impl View for Effect {
    type V = EffectView;

    open spec fn view(&self) -> EffectView {
        match self {
            Effect::InvalidateScanCache => EffectView::InvalidateScanCache,
            Effect::StartScan { path } => EffectView::StartScan { path: path@ },
            Effect::InvalidateGitHubCache { owner, repo } => EffectView::InvalidateGitHubCache {
                owner: owner@,
                repo: repo@,
            },
            Effect::FetchGitHub { path, owner, repo, token } => EffectView::FetchGitHub {
                path: path@,
                owner: owner@,
                repo: repo@,
                token: token.deep_view(),
            },
            Effect::OpenUrl { url } => EffectView::OpenUrl { url: url@ },
        }
    }
}

impl DeepView for Effect {
    type V = EffectView;

    open spec fn deep_view(&self) -> EffectView {
        self@
    }
}

/// The dashboard's state: the repositories found, the selection, and what the panes show.
#[derive(Debug)]
pub struct App {
    pub repos: Vec<RepoInfo>,
    pub selected: Option<usize>,
    pub state: AppState,
    pub scan_path: String,
    pub github_token: Option<String>,
    pub should_quit: bool,
    pub active_pane: ActivePane,
    pub detail_tab: DetailTab,
    pub detail_scroll: u16,
    pub list_area: Rect,
    pub tab_bar_area: Rect,
    pub detail_content_area: Rect,
    /// Clickable zones of the detail pane, each with the address it opens.
    pub click_zones: Vec<(Rect, String)>,
    /// The paths of the repositories whose GitHub fetch has not reported back yet.
    pub github_fetching: PathSet,
}

impl View for App {
    type V = AppView;

    open spec fn view(&self) -> AppView {
        AppView {
            repos: self.repos.deep_view(),
            selected: self.selected,
            state: self.state,
            scan_path: self.scan_path@,
            github_token: self.github_token.deep_view(),
            should_quit: self.should_quit,
            active_pane: self.active_pane,
            detail_tab: self.detail_tab,
            detail_scroll: self.detail_scroll,
            list_area: self.list_area,
            tab_bar_area: self.tab_bar_area,
            detail_content_area: self.detail_content_area,
            click_zones: self.click_zones.deep_view(),
            fetching: self.github_fetching@,
        }
    }
}

/// The mathematical value of a fetch's outcome.
pub open spec fn outcome_view(outcome: Result<GitHubData, String>) -> Result<
    GitHubDataView,
    Seq<char>,
> {
    match outcome {
        Ok(data) => Ok(data@),
        Err(error) => Err(error@),
    }
}

/// No work to ask for.
fn no_effects() -> (effects: Vec<Effect>)
    ensures
        effects.deep_view() == Seq::<EffectView>::empty(),
{
    let effects: Vec<Effect> = Vec::new();
    assert(effects.deep_view() =~= Seq::<EffectView>::empty());
    effects
}

/// The tab that a click `rel` columns right of the tab bar's left edge selects.
fn tab_for(rel: u16) -> (tab: DetailTab)
    ensures
        tab == tab_at(rel as int),
{
    proof {
        reveal_strlit("Changes");
        reveal_strlit("Commits");
        reveal_strlit("Issues");
        reveal_strlit("PRs");
    }
    let rel: usize = rel as usize;
    let changes: usize = 1 + DetailTab::Changes.label().unicode_len() + 1;
    let commits: usize = changes + 2 + DetailTab::Commits.label().unicode_len() + 1;
    let issues: usize = commits + 2 + DetailTab::Issues.label().unicode_len() + 1;
    if rel < changes {
        DetailTab::Changes
    } else if rel < commits {
        DetailTab::Commits
    } else if rel < issues {
        DetailTab::Issues
    } else {
        DetailTab::Prs
    }
}

impl App {
    /// What has to hold of a state: the set of fetches under way is well formed.
    pub open spec fn wf(&self) -> bool {
        self.github_fetching.wf()
    }

    /// The state before the first scan reports: no repositories, nothing selected, the
    /// list pane in focus.
    pub fn new(scan_path: String, github_token: Option<String>) -> (app: App)
        ensures
            app.wf(),
            app@ == AppView::initial(scan_path@, github_token.deep_view()),
    {
        let app = App {
            repos: Vec::new(),
            selected: None,
            state: AppState::Scanning,
            scan_path,
            github_token,
            should_quit: false,
            active_pane: ActivePane::RepoList,
            detail_tab: DetailTab::Changes,
            detail_scroll: 0,
            list_area: Rect::default(),
            tab_bar_area: Rect::default(),
            detail_content_area: Rect::default(),
            click_zones: Vec::new(),
            github_fetching: PathSet::new(),
        };
        assert(app.repos.deep_view() =~= Seq::<RepoInfoView>::empty());
        assert(app.click_zones.deep_view() =~= Seq::<(Rect, Seq<char>)>::empty());
        assert(app@ =~~= AppView::initial(scan_path@, github_token.deep_view()));
        app
    }

    /// The repository under the selection, if the selection points at one.
    pub fn selected_repo(&self) -> (r: Option<&RepoInfo>)
        ensures
            r.deep_view() == self@.selected_repo(),
            r is Some ==> self.selected is Some && self.selected->0 < self.repos.len() && *r->0
                == self.repos[self.selected->0 as int],
    {
        match self.selected {
            Some(i) => if i < self.repos.len() {
                Some(&self.repos[i])
            } else {
                None
            },
            None => None,
        }
    }

    /// The position of the first repository at `path`, if the list holds one.
    fn find_repo(&self, path: &String) -> (r: Option<usize>)
        ensures
            match r {
                Some(i) => i < self.repos.len() && self@.repo_at(path@) == Some(i as int),
                None => self@.repo_at(path@) is None,
            },
    {
        let ghost pred = |r: RepoInfoView| r.path == path@;
        let mut i: usize = 0;
        while i < self.repos.len()
            invariant
                i <= self.repos.len(),
                pred == |r: RepoInfoView| r.path == path@,
                forall|j: int| 0 <= j < i ==> !pred(#[trigger] self.repos.deep_view()[j]),
            decreases self.repos.len() - i,
        {
            if self.repos[i].path == *path {
                proof {
                    assert(pred(self.repos.deep_view()[i as int]));
                    lemma_first_where_some(self.repos.deep_view(), pred, i as int);
                }
                return Some(i);
            }
            i += 1;
        }
        proof {
            lemma_first_where_none(self.repos.deep_view(), pred);
        }
        None
    }

    /// The address of the first clickable zone that holds the cell, if there is one.
    fn zone_url(&self, column: u16, row: u16) -> (r: Option<String>)
        ensures
            r.deep_view() == self@.zone_url(column, row),
    {
        let ghost pred = |z: (Rect, Seq<char>)| z.0.contains(column, row);
        let mut i: usize = 0;
        while i < self.click_zones.len()
            invariant
                i <= self.click_zones.len(),
                pred == |z: (Rect, Seq<char>)| z.0.contains(column, row),
                forall|j: int| 0 <= j < i ==> !pred(#[trigger] self.click_zones.deep_view()[j]),
            decreases self.click_zones.len() - i,
        {
            if self.click_zones[i].0.hit(column, row) {
                proof {
                    assert(pred(self.click_zones.deep_view()[i as int]));
                    lemma_first_where_some(self.click_zones.deep_view(), pred, i as int);
                }
                return Some(self.click_zones[i].1.clone());
            }
            i += 1;
        }
        proof {
            lemma_first_where_none(self.click_zones.deep_view(), pred);
        }
        None
    }

    /// Decides whether the selected repository needs a GitHub fetch. If it does, records
    /// the fetch as under way and returns it; the caller has it run elsewhere.
    fn maybe_fetch_selected_github(&mut self) -> (r: Option<Effect>)
        requires
            old(self).wf(),
        ensures
            final(self).wf(),
            final(self)@ == old(self)@.fetch_started(),
            r.deep_view() == old(self)@.fetch_request(),
    {
        let request = match self.selected_repo() {
            None => None,
            Some(repo) => {
                if repo.github_data.is_some() || repo.github_error.is_some()
                    || self.github_fetching.contains(&repo.path) {
                    None
                } else {
                    match &repo.github_repo {
                        None => None,
                        Some(pair) => Some(
                            Effect::FetchGitHub {
                                path: repo.path.clone(),
                                owner: pair.0.clone(),
                                repo: pair.1.clone(),
                                token: copy_of(&self.github_token),
                            },
                        ),
                    }
                }
            },
        };
        match &request {
            Some(Effect::FetchGitHub { path, .. }) => {
                self.github_fetching.insert(path.clone());
            },
            _ => {},
        }
        assert(self@ =~~= old(self)@.fetch_started());
        request
    }

    /// The effects of a transition that ends with the decision on a fetch.
    fn fetch_effects(&mut self) -> (effects: Vec<Effect>)
        requires
            old(self).wf(),
        ensures
            final(self).wf(),
            final(self)@ == old(self)@.fetch_started(),
            effects.deep_view() == old(self)@.fetch_effects(),
    {
        let mut effects: Vec<Effect> = Vec::new();
        match self.maybe_fetch_selected_github() {
            Some(e) => {
                effects.push(e);
                assert(effects.deep_view() =~= seq![e@]);
            },
            None => {
                assert(effects.deep_view() =~= Seq::<EffectView>::empty());
            },
        }
        effects
    }

    /// Moves the selection to `index` and shows the first tab from its top.
    fn select(&mut self, index: usize)
        ensures
            final(self)@ == old(self)@.select(index),
            final(self).github_fetching == old(self).github_fetching,
    {
        self.selected = Some(index);
        self.detail_scroll = 0;
        self.detail_tab = DetailTab::Changes;
    }

    /// Moves the selection up, or scrolls the detail pane up.
    fn move_up(&mut self) -> (effects: Vec<Effect>)
        requires
            old(self).wf(),
        ensures
            final(self).wf(),
            final(self)@ == move_up(old(self)@).0,
            effects.deep_view() == move_up(old(self)@).1,
    {
        match self.active_pane {
            ActivePane::RepoList => {
                if self.repos.len() == 0 {
                    return no_effects();
                }
                let index = match self.selected {
                    Some(i) => if i == 0 {
                        self.repos.len() - 1
                    } else {
                        i - 1
                    },
                    None => 0,
                };
                self.select(index);
                self.fetch_effects()
            },
            ActivePane::Detail => {
                self.detail_scroll = self.detail_scroll.saturating_sub(1);
                no_effects()
            },
        }
    }

    /// Moves the selection down, or scrolls the detail pane down.
    fn move_down(&mut self) -> (effects: Vec<Effect>)
        requires
            old(self).wf(),
        ensures
            final(self).wf(),
            final(self)@ == move_down(old(self)@).0,
            effects.deep_view() == move_down(old(self)@).1,
    {
        match self.active_pane {
            ActivePane::RepoList => {
                if self.repos.len() == 0 {
                    return no_effects();
                }
                let index = match self.selected {
                    Some(i) => if i >= self.repos.len() - 1 {
                        0
                    } else {
                        i + 1
                    },
                    None => 0,
                };
                self.select(index);
                self.fetch_effects()
            },
            ActivePane::Detail => {
                self.detail_scroll = self.detail_scroll.saturating_add(1);
                no_effects()
            },
        }
    }

    /// Moves the focus to the other pane.
    fn switch_pane(&mut self) -> (effects: Vec<Effect>)
        requires
            old(self).wf(),
        ensures
            final(self).wf(),
            final(self)@ == switch_pane(old(self)@).0,
            effects.deep_view() == switch_pane(old(self)@).1,
    {
        self.active_pane = match self.active_pane {
            ActivePane::RepoList => ActivePane::Detail,
            ActivePane::Detail => ActivePane::RepoList,
        };
        self.detail_scroll = 0;
        self.fetch_effects()
    }

    /// Takes a click on a cell: on a row of the list, on the tab bar, or on a clickable
    /// zone, tried in this order.
    fn click(&mut self, column: u16, row: u16) -> (effects: Vec<Effect>)
        requires
            old(self).wf(),
        ensures
            final(self).wf(),
            final(self)@ == click(old(self)@, column, row).0,
            effects.deep_view() == click(old(self)@, column, row).1,
    {
        if self.list_area.hit(column, row) {
            let first_row: u32 = self.list_area.y as u32 + 2;
            if row as u32 >= first_row {
                let index: usize = (row as u32 - first_row) as usize;
                if index < self.repos.len() {
                    self.select(index);
                    self.active_pane = ActivePane::RepoList;
                    return self.fetch_effects();
                }
            }
            return no_effects();
        }
        let bar = self.tab_bar_area;
        if row == bar.y && column >= bar.x && (column as u32) < bar.x as u32 + bar.width as u32 {
            self.detail_tab = tab_for(column - bar.x);
            self.detail_scroll = 0;
            return no_effects();
        }
        let mut effects: Vec<Effect> = Vec::new();
        match self.zone_url(column, row) {
            Some(url) => {
                effects.push(Effect::OpenUrl { url });
                assert(effects.deep_view() =~= seq![EffectView::OpenUrl { url: url@ }]);
            },
            None => {
                assert(effects.deep_view() =~= Seq::<EffectView>::empty());
            },
        }
        effects
    }

    /// Forgets what GitHub said of the selected repository and that a fetch for it is
    /// under way.
    fn clear_selected(&mut self)
        requires
            old(self).wf(),
        ensures
            final(self).wf(),
            final(self)@ == old(self)@.selected_cleared(),
    {
        if let Some(index) = self.selected {
            if index < self.repos.len() {
                self.repos[index].github_error = None;
                self.repos[index].github_data = None;
                self.github_fetching.remove(&self.repos[index].path);
                assert(self.repos.deep_view() =~= old(self).repos.deep_view().update(
                    index as int,
                    without_github(old(self).repos[index as int]@),
                ));
            }
        }
        assert(self@ =~~= old(self)@.selected_cleared());
    }

    /// The cache entry to drop before a forced retry for the selected repository.
    fn invalidate_effects(&self) -> (effects: Vec<Effect>)
        ensures
            effects.deep_view() == self@.invalidate_effects(),
    {
        let mut effects: Vec<Effect> = Vec::new();
        if let Some(repo) = self.selected_repo() {
            if let Some(pair) = &repo.github_repo {
                let e = Effect::InvalidateGitHubCache { owner: pair.0.clone(), repo: pair.1.clone() };
                effects.push(e);
                assert(effects.deep_view() =~= seq![e@]);
                return effects;
            }
        }
        assert(effects.deep_view() =~= Seq::<EffectView>::empty());
        effects
    }

    /// Asks GitHub again for the selected repository; with `force`, past the cache.
    fn retry(&mut self, force: bool) -> (effects: Vec<Effect>)
        requires
            old(self).wf(),
        ensures
            final(self).wf(),
            final(self)@ == retry(old(self)@, force).0,
            effects.deep_view() == retry(old(self)@, force).1,
    {
        let mut effects: Vec<Effect> = if force {
            self.invalidate_effects()
        } else {
            Vec::new()
        };
        let ghost first = effects.deep_view();
        assert(!force ==> first =~= Seq::<EffectView>::empty());
        self.clear_selected();
        match self.maybe_fetch_selected_github() {
            Some(e) => {
                effects.push(e);
                assert(effects.deep_view() =~= first + seq![e@]);
            },
            None => {
                assert(effects.deep_view() =~= first + Seq::<EffectView>::empty());
            },
        }
        effects
    }

    /// Retries in the detail pane, rescans in the list pane; with `force`, past the
    /// caches.
    fn refresh(&mut self, force: bool) -> (effects: Vec<Effect>)
        requires
            old(self).wf(),
        ensures
            final(self).wf(),
            final(self)@ == refresh(old(self)@, force).0,
            effects.deep_view() == refresh(old(self)@, force).1,
    {
        match self.active_pane {
            ActivePane::Detail => self.retry(force),
            ActivePane::RepoList => {
                self.state = AppState::Scanning;
                self.repos = Vec::new();
                self.selected = None;
                self.detail_scroll = 0;
                let mut effects: Vec<Effect> = Vec::new();
                if force {
                    effects.push(Effect::InvalidateScanCache);
                }
                let scan = Effect::StartScan { path: self.scan_path.clone() };
                effects.push(scan);
                assert(self.repos.deep_view() =~= Seq::<RepoInfoView>::empty());
                assert(self@ =~~= old(self)@.rescanning());
                assert(effects.deep_view() =~= refresh(old(self)@, force).1);
                effects
            },
        }
    }

    /// Takes the result of a scan.
    fn repos_scanned(&mut self, repos: Vec<RepoInfo>)
        ensures
            final(self).wf(),
            final(self)@ == repos_scanned(old(self)@, repos.deep_view()),
    {
        self.repos = repos;
        self.state = AppState::Ready;
        self.github_fetching.clear();
        if self.repos.len() > 0 {
            self.selected = Some(0);
        }
        assert(self@ =~~= repos_scanned(old(self)@, repos.deep_view()));
    }

    /// Takes the result of a fetch for the repository at `path`.
    fn github_done(&mut self, path: String, outcome: Result<GitHubData, String>)
        requires
            old(self).wf(),
        ensures
            final(self).wf(),
            final(self)@ == github_done(old(self)@, path@, outcome_view(outcome)),
    {
        if let Some(index) = self.find_repo(&path) {
            match outcome {
                Ok(data) => {
                    self.repos[index].github_data = Some(data);
                    self.repos[index].github_error = None;
                    assert(self.repos.deep_view() =~= old(self).repos.deep_view().update(
                        index as int,
                        with_github_data(old(self).repos[index as int]@, data@),
                    ));
                },
                Err(error) => {
                    self.repos[index].github_data = None;
                    self.repos[index].github_error = Some(error);
                    assert(self.repos.deep_view() =~= old(self).repos.deep_view().update(
                        index as int,
                        with_github_error(old(self).repos[index as int]@, error@),
                    ));
                },
            }
            self.github_fetching.remove(&path);
        }
        assert(self@ =~~= github_done(old(self)@, path@, outcome_view(outcome)));
    }

    /// Consumes one message: changes the state as [`step`] says and returns the work that
    /// the event loop is to start, in order.
    pub fn update(&mut self, msg: Message) -> (effects: Vec<Effect>)
        requires
            old(self).wf(),
        ensures
            final(self).wf(),
            final(self)@ == step(old(self)@, msg@).0,
            effects.deep_view() == step(old(self)@, msg@).1,
    {
        match msg {
            Message::MoveUp => self.move_up(),
            Message::MoveDown => self.move_down(),
            Message::SwitchPane => self.switch_pane(),
            Message::Click { column, row } => self.click(column, row),
            Message::RetryGitHub => self.retry(false),
            Message::ForceRetryGitHub => self.retry(true),
            Message::Refresh => self.refresh(false),
            Message::ForceRefresh => self.refresh(true),
            Message::Tick => no_effects(),
            Message::Quit => {
                self.should_quit = true;
                assert(self@ =~~= step(old(self)@, msg@).0);
                no_effects()
            },
            Message::FocusList => {
                self.active_pane = ActivePane::RepoList;
                self.detail_scroll = 0;
                assert(self@ =~~= step(old(self)@, msg@).0);
                no_effects()
            },
            Message::NextTab => {
                self.detail_tab = self.detail_tab.next();
                self.detail_scroll = 0;
                assert(self@ =~~= step(old(self)@, msg@).0);
                no_effects()
            },
            Message::PrevTab => {
                self.detail_tab = self.detail_tab.prev();
                self.detail_scroll = 0;
                assert(self@ =~~= step(old(self)@, msg@).0);
                no_effects()
            },
            Message::ReposScanned(repos) => {
                self.repos_scanned(repos);
                no_effects()
            },
            Message::GitHubDataReceived { path, data } => {
                self.github_done(path, Ok(data));
                no_effects()
            },
            Message::GitHubError { path, error } => {
                self.github_done(path, Err(error));
                no_effects()
            },
        }
    }
}

} // verus!
