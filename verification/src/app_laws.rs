use vstd::prelude::*;
use crate::app::{ActivePane, EffectView, MessageView};
use crate::github::cache_key_of;
use crate::model::{list_header_rows, step, AppView};
use crate::repo::{GitHubDataView, RepoInfoView};
use crate::seq_util::{lemma_first_where_is_first, lemma_first_where_none};

verus! {

/// The effect is a fetch for the repository at `path`.
pub open spec fn is_fetch_for(effect: EffectView, path: Seq<char>) -> bool {
    effect matches EffectView::FetchGitHub { path: p, .. } && p == path
}

/// The effect empties a cache, in whole or in part.
pub open spec fn is_invalidation(effect: EffectView) -> bool {
    effect is InvalidateScanCache || effect is InvalidateGitHubCache
}

/// The message comes from navigation: it moves the selection, the focus, the tab or the
/// scroll position, or does nothing. It is neither a retry, a refresh, nor a result.
pub open spec fn is_navigation(msg: MessageView) -> bool {
    match msg {
        MessageView::Quit
        | MessageView::MoveUp
        | MessageView::MoveDown
        | MessageView::Tick
        | MessageView::SwitchPane
        | MessageView::FocusList
        | MessageView::NextTab
        | MessageView::PrevTab
        | MessageView::Click { .. } => true,
        _ => false,
    }
}

/// No repository of the list shows fetched data and a fetch error at once.
pub open spec fn all_exclusive(repos: Seq<RepoInfoView>) -> bool {
    forall|i: int| 0 <= i < repos.len() ==> (#[trigger] repos[i]).wf()
}

/// Where there are repositories, one of them is selected.
pub open spec fn selection_in_range(app: AppView) -> bool {
    app.repos.len() > 0 ==> app.selected is Some && app.selected->0 < app.repos.len()
}

/// The state in which a transition decides on a fetch, for the transitions that end
/// with that decision: the selection has moved or was cleared, and the fetch is not
/// recorded yet. Other transitions never ask for a fetch.
pub open spec fn before_fetch(app: AppView, msg: MessageView) -> Option<AppView> {
    match msg {
        MessageView::MoveUp => if app.active_pane == ActivePane::RepoList && app.repos.len() > 0 {
            Some(app.select(app.index_above()))
        } else {
            None
        },
        MessageView::MoveDown => if app.active_pane == ActivePane::RepoList && app.repos.len()
            > 0 {
            Some(app.select(app.index_below()))
        } else {
            None
        },
        MessageView::SwitchPane => Some(switch_pane_before_fetch(app)),
        MessageView::Click { column, row } => {
            let index = row - (app.list_area.y + list_header_rows());
            if app.list_area.contains(column, row) && 0 <= index < app.repos.len() {
                Some(AppView { active_pane: ActivePane::RepoList, ..app.select(index as usize) })
            } else {
                None
            }
        },
        MessageView::RetryGitHub | MessageView::ForceRetryGitHub => Some(app.selected_cleared()),
        MessageView::Refresh | MessageView::ForceRefresh => if app.active_pane
            == ActivePane::Detail {
            Some(app.selected_cleared())
        } else {
            None
        },
        _ => None,
    }
}

/// The invalidation of a GitHub cache entry that a transition asks for before it decides
/// on a fetch.
pub open spec fn invalidation_before_fetch(app: AppView, msg: MessageView) -> Seq<EffectView> {
    if msg is ForceRetryGitHub || (msg is ForceRefresh && app.active_pane == ActivePane::Detail) {
        app.invalidate_effects()
    } else {
        Seq::empty()
    }
}

/// A transition that decides on a fetch ends in the state with the fetch recorded, and
/// asks for the fetch last; every other transition asks for no fetch.
pub proof fn lemma_step_ends_with_the_fetch(app: AppView, msg: MessageView)
    ensures
        match before_fetch(app, msg) {
            Some(before) => {
                &&& step(app, msg).0 == before.fetch_started()
                &&& step(app, msg).1 == invalidation_before_fetch(app, msg)
                    + before.fetch_effects()
            },
            None => forall|i: int|
                0 <= i < step(app, msg).1.len() ==> !((#[trigger] step(app, msg).1[i])
                    is FetchGitHub),
        },
        forall|i: int|
            0 <= i < invalidation_before_fetch(app, msg).len() ==> (
            #[trigger] invalidation_before_fetch(app, msg)[i]) is InvalidateGitHubCache,
        invalidation_before_fetch(app, msg).len() <= 1,
{
    match msg {
        MessageView::MoveUp => {},
        MessageView::MoveDown => {},
        MessageView::SwitchPane => {},
        MessageView::Click { column, row } => {},
        MessageView::RetryGitHub => {
            assert(step(app, msg).1 =~= invalidation_before_fetch(app, msg)
                + app.selected_cleared().fetch_effects());
        },
        MessageView::ForceRetryGitHub => {},
        MessageView::Refresh => {
            if app.active_pane == ActivePane::Detail {
                assert(step(app, msg).1 =~= invalidation_before_fetch(app, msg)
                    + app.selected_cleared().fetch_effects());
            }
        },
        MessageView::ForceRefresh => {},
        _ => {},
    }
    if let Some(before) = before_fetch(app, msg) {
        assert(step(app, msg).1 =~= invalidation_before_fetch(app, msg)
            + before.fetch_effects());
    }
}

/// A transition asks for at most one fetch, and the repository it asks for is from then
/// on recorded as having a fetch under way.
pub proof fn law_fetch_is_recorded(app: AppView, msg: MessageView, i: int)
    requires
        0 <= i < step(app, msg).1.len(),
        step(app, msg).1[i] is FetchGitHub,
    ensures
        step(app, msg).0.fetching.contains(step(app, msg).1[i]->FetchGitHub_path),
        forall|j: int|
            0 <= j < step(app, msg).1.len() && (#[trigger] step(app, msg).1[j]) is FetchGitHub
                ==> j == i,
{
    lemma_step_ends_with_the_fetch(app, msg);
    let first = invalidation_before_fetch(app, msg);
    if i < first.len() {
        assert(first[i] is InvalidateGitHubCache);
    }
    assert forall|j: int|
        0 <= j < step(app, msg).1.len() && (#[trigger] step(app, msg).1[j])
            is FetchGitHub implies j == i by {
        if j < first.len() {
            assert(first[j] is InvalidateGitHubCache);
        }
    }
}

/// A fetch is asked for the selected repository only, with its own coordinates and the
/// token of the dashboard, and only while it shows neither data nor an error.
pub proof fn law_fetch_is_for_the_selection(app: AppView, msg: MessageView, i: int)
    requires
        0 <= i < step(app, msg).1.len(),
        step(app, msg).1[i] is FetchGitHub,
    ensures
        ({
            &&& step(app, msg).0.selected_repo() matches Some(repo)
            &&& repo.github_data is None
            &&& repo.github_error is None
            &&& repo.github_repo matches Some((owner, name))
            &&& step(app, msg).1[i] == (EffectView::FetchGitHub {
                path: repo.path,
                owner,
                repo: name,
                token: app.github_token,
            })
        }),
{
    lemma_step_ends_with_the_fetch(app, msg);
    let first = invalidation_before_fetch(app, msg);
    if i < first.len() {
        assert(first[i] is InvalidateGitHubCache);
    }
}

/// While a fetch for the repository at `path` is under way, navigation never asks for a
/// second one, and the fetch stays recorded.
pub proof fn law_no_second_fetch(app: AppView, msg: MessageView, path: Seq<char>)
    requires
        app.fetching.contains(path),
        is_navigation(msg),
    ensures
        step(app, msg).0.fetching.contains(path),
        forall|i: int|
            0 <= i < step(app, msg).1.len() ==> !is_fetch_for(#[trigger] step(app, msg).1[i], path),
{
}

/// Selecting a repository twice before its first fetch reports back starts one fetch:
/// once a transition has asked for a fetch, a navigation that follows asks for none for
/// the same repository.
pub proof fn law_fetch_deduplication(
    app: AppView,
    first: MessageView,
    second: MessageView,
    path: Seq<char>,
    i: int,
)
    requires
        0 <= i < step(app, first).1.len(),
        is_fetch_for(step(app, first).1[i], path),
        is_navigation(second),
    ensures
        forall|j: int|
            0 <= j < step(step(app, first).0, second).1.len() ==> !is_fetch_for(
                #[trigger] step(step(app, first).0, second).1[j],
                path,
            ),
{
    law_fetch_is_recorded(app, first, i);
    law_no_second_fetch(step(app, first).0, second, path);
}

/// The result of a fetch for a path that the list does not hold changes nothing and asks
/// for nothing, whether the fetch succeeded or failed.
pub proof fn law_stale_result_is_ignored(
    app: AppView,
    path: Seq<char>,
    data: GitHubDataView,
    error: Seq<char>,
)
    requires
        forall|i: int| 0 <= i < app.repos.len() ==> (#[trigger] app.repos[i]).path != path,
    ensures
        step(app, MessageView::GitHubDataReceived { path, data }) == (app, Seq::<EffectView>::empty()),
        step(app, MessageView::GitHubError { path, error }) == (app, Seq::<EffectView>::empty()),
{
    lemma_first_where_none(app.repos, |r: RepoInfoView| r.path == path);
}

/// A result never adds or removes a repository: the list keeps its length and every
/// repository keeps its path.
pub proof fn law_result_keeps_the_list(app: AppView, msg: MessageView)
    requires
        msg is GitHubDataReceived || msg is GitHubError,
    ensures
        step(app, msg).0.repos.len() == app.repos.len(),
        forall|i: int|
            0 <= i < app.repos.len() ==> (#[trigger] step(app, msg).0.repos[i]).path
                == app.repos[i].path,
        step(app, msg).1.len() == 0,
{
    let path = match msg {
        MessageView::GitHubDataReceived { path, .. } => path,
        MessageView::GitHubError { path, .. } => path,
        _ => Seq::empty(),
    };
    lemma_first_where_is_first(app.repos, |r: RepoInfoView| r.path == path);
}

/// A plain retry empties no cache. It clears what the selected repository shows of
/// GitHub, so that a fetch is asked for again where the repository has coordinates.
pub proof fn law_retry_keeps_the_caches(app: AppView)
    ensures
        forall|i: int|
            0 <= i < step(app, MessageView::RetryGitHub).1.len() ==> !is_invalidation(
                #[trigger] step(app, MessageView::RetryGitHub).1[i],
            ),
        app.selected_repo() matches Some(repo) ==> {
            let after = step(app, MessageView::RetryGitHub).0.selected_repo();
            &&& after is Some
            &&& after->0.github_data is None
            &&& after->0.github_error is None
            &&& after->0.path == repo.path
            &&& repo.github_repo matches Some((owner, name)) ==> step(
                app,
                MessageView::RetryGitHub,
            ).1 == seq![
                EffectView::FetchGitHub {
                    path: repo.path,
                    owner,
                    repo: name,
                    token: app.github_token,
                },
            ]
        },
{
}

/// A forced retry drops the cache entry of the selected repository and of no other: the
/// only invalidation it asks for names the selected repository's coordinates, and it
/// never empties the scan cache.
pub proof fn law_force_retry_invalidates_one_entry(app: AppView, i: int)
    requires
        0 <= i < step(app, MessageView::ForceRetryGitHub).1.len(),
        is_invalidation(step(app, MessageView::ForceRetryGitHub).1[i]),
    ensures
        i == 0,
        app.selected_repo() matches Some(repo) && repo.github_repo matches Some((owner, name))
            && step(app, MessageView::ForceRetryGitHub).1[i] == (EffectView::InvalidateGitHubCache {
            owner,
            repo: name,
        }),
{
}

/// Only a forced refresh from the list pane empties the scan cache.
pub proof fn law_scan_cache_is_emptied_by_force_refresh_only(app: AppView, msg: MessageView, i: int)
    requires
        0 <= i < step(app, msg).1.len(),
        step(app, msg).1[i] is InvalidateScanCache,
    ensures
        msg is ForceRefresh,
        app.active_pane == ActivePane::RepoList,
{
}

/// No transition makes a repository show data and an error at once, as long as the lists
/// that scans report hold no such repository.
pub proof fn law_data_and_error_exclude_each_other(app: AppView, msg: MessageView)
    requires
        all_exclusive(app.repos),
        msg matches MessageView::ReposScanned(repos) ==> all_exclusive(repos),
    ensures
        all_exclusive(step(app, msg).0.repos),
{
    match msg {
        MessageView::GitHubDataReceived { path, .. } => {
            lemma_first_where_is_first(app.repos, |r: RepoInfoView| r.path == path);
        },
        MessageView::GitHubError { path, .. } => {
            lemma_first_where_is_first(app.repos, |r: RepoInfoView| r.path == path);
        },
        _ => {},
    }
    let after = step(app, msg).0.repos;
    assert forall|i: int| 0 <= i < after.len() implies (#[trigger] after[i]).wf() by {
        if i < app.repos.len() {
            assert(app.repos[i].wf());
        }
    }
}

/// The selection always points at a repository of the list while the list has any: a
/// move wraps around at either end.
pub proof fn law_selection_stays_in_range(app: AppView, msg: MessageView)
    requires
        selection_in_range(app),
    ensures
        selection_in_range(step(app, msg).0),
{
    match msg {
        MessageView::MoveUp => {
            lemma_fetch_keeps_the_list(app.select(app.index_above()));
        },
        MessageView::MoveDown => {
            lemma_fetch_keeps_the_list(app.select(app.index_below()));
        },
        MessageView::SwitchPane => {
            lemma_fetch_keeps_the_list(switch_pane_before_fetch(app));
        },
        MessageView::Click { column, row } => {
            let index = row - (app.list_area.y + list_header_rows());
            if app.list_area.contains(column, row) && 0 <= index < app.repos.len() {
                lemma_fetch_keeps_the_list(
                    AppView { active_pane: ActivePane::RepoList, ..app.select(index as usize) },
                );
            }
        },
        MessageView::RetryGitHub | MessageView::ForceRetryGitHub => {
            lemma_fetch_keeps_the_list(app.selected_cleared());
        },
        MessageView::Refresh | MessageView::ForceRefresh => {
            lemma_fetch_keeps_the_list(app.selected_cleared());
        },
        MessageView::GitHubDataReceived { path, .. } => {
            lemma_first_where_is_first(app.repos, |r: RepoInfoView| r.path == path);
        },
        MessageView::GitHubError { path, .. } => {
            lemma_first_where_is_first(app.repos, |r: RepoInfoView| r.path == path);
        },
        _ => {},
    }
}

/// The state to which a switch of panes leads before the fetch is decided.
pub open spec fn switch_pane_before_fetch(app: AppView) -> AppView {
    AppView {
        active_pane: match app.active_pane {
            ActivePane::RepoList => ActivePane::Detail,
            ActivePane::Detail => ActivePane::RepoList,
        },
        detail_scroll: 0,
        ..app
    }
}

/// Recording a fetch as under way changes neither the list nor the selection.
pub proof fn lemma_fetch_keeps_the_list(app: AppView)
    ensures
        app.fetch_started().repos == app.repos,
        app.fetch_started().selected == app.selected,
        app.fetch_started().active_pane == app.active_pane,
{
}

/// Moving down from the last repository selects the first, and moving up from the first
/// selects the last.
pub proof fn law_selection_wraps(app: AppView)
    requires
        app.active_pane == ActivePane::RepoList,
        app.repos.len() > 0,
        app.repos.len() <= usize::MAX,
    ensures
        app.selected == Some((app.repos.len() - 1) as usize) ==> step(
            app,
            MessageView::MoveDown,
        ).0.selected == Some(0usize),
        app.selected == Some(0usize) ==> step(app, MessageView::MoveUp).0.selected == Some(
            (app.repos.len() - 1) as usize,
        ),
{
}

/// The GitHub cache after the effects of a transition were carried out, in order: each
/// invalidation takes its repository's entry out, and nothing else touches the cache.
pub open spec fn github_cache_after<T>(
    effects: Seq<EffectView>,
    cache: Map<Seq<char>, (T, u64)>,
) -> Map<Seq<char>, (T, u64)>
    decreases effects.len(),
{
    if effects.len() == 0 {
        cache
    } else {
        let before = github_cache_after(effects.drop_last(), cache);
        match effects.last() {
            EffectView::InvalidateGitHubCache { owner, repo } => before.remove(
                cache_key_of(owner, repo),
            ),
            _ => before,
        }
    }
}

/// A plain retry leaves the GitHub cache as it is, so that an entry that is still fresh
/// answers the fetch that follows. A forced retry takes out the entry of the selected
/// repository and no other.
pub proof fn law_retries_and_the_github_cache<T>(app: AppView, cache: Map<Seq<char>, (T, u64)>)
    ensures
        github_cache_after(step(app, MessageView::RetryGitHub).1, cache) == cache,
        github_cache_after(step(app, MessageView::ForceRetryGitHub).1, cache) == match app.selected_repo() {
            Some(repo) => match repo.github_repo {
                Some((owner, name)) => cache.remove(cache_key_of(owner, name)),
                None => cache,
            },
            None => cache,
        },
{
    let soft = step(app, MessageView::RetryGitHub).1;
    let hard = step(app, MessageView::ForceRetryGitHub).1;
    reveal_with_fuel(github_cache_after, 3);
    if soft.len() > 0 {
        assert(soft.drop_last().len() == 0);
    }
    if hard.len() == 1 {
        assert(hard.drop_last().len() == 0);
    } else if hard.len() == 2 {
        assert(hard.drop_last().len() == 1);
        assert(hard.drop_last().drop_last().len() == 0);
        assert(hard.drop_last().last() == hard[0]);
    }
}

} // verus!
