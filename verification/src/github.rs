use vstd::prelude::*;
use vstd::string::*;
use crate::app::{Message, MessageView};
use crate::cache::{lookup, TtlCache};
use crate::repo::{GitHubData, GitHubDataView, GitHubItem, GitHubItemView};

verus! {

/// How many issues and how many pull requests a fetch asks for and shows.
pub const RECENT_ITEMS: u8 = 5;

/// One entry of the answer to the issues query. GitHub lists pull requests among the
/// issues; `is_pull_request` tells them apart.
#[derive(Debug, Clone, PartialEq, Eq)]
pub struct IssueEntry {
    pub number: u64,
    pub title: String,
    pub is_pull_request: bool,
}

/// One entry of the answer to the pull requests query.
#[derive(Debug, Clone, PartialEq, Eq)]
pub struct PullEntry {
    pub number: u64,
    pub title: Option<String>,
}

/// The first page of open issues, with the total that GitHub reports, if it reports one.
#[derive(Debug, Clone, PartialEq, Eq)]
pub struct IssuePage {
    pub total_count: Option<u64>,
    pub items: Vec<IssueEntry>,
}

/// The first page of open pull requests, with the total that GitHub reports, if it
/// reports one.
#[derive(Debug, Clone, PartialEq, Eq)]
pub struct PullPage {
    pub total_count: Option<u64>,
    pub items: Vec<PullEntry>,
}

/// The mathematical value of an [`IssueEntry`].
pub struct IssueEntryView {
    pub number: u64,
    pub title: Seq<char>,
    pub is_pull_request: bool,
}

/// The mathematical value of a [`PullEntry`].
pub struct PullEntryView {
    pub number: u64,
    pub title: Option<Seq<char>>,
}

/// The mathematical value of an [`IssuePage`].
pub struct IssuePageView {
    pub total_count: Option<u64>,
    pub items: Seq<IssueEntryView>,
}

/// The mathematical value of a [`PullPage`].
pub struct PullPageView {
    pub total_count: Option<u64>,
    pub items: Seq<PullEntryView>,
}

impl View for IssueEntry {
    type V = IssueEntryView;

    open spec fn view(&self) -> IssueEntryView {
        IssueEntryView {
            number: self.number,
            title: self.title@,
            is_pull_request: self.is_pull_request,
        }
    }
}

impl DeepView for IssueEntry {
    type V = IssueEntryView;

    open spec fn deep_view(&self) -> IssueEntryView {
        self@
    }
}

impl View for PullEntry {
    type V = PullEntryView;

    open spec fn view(&self) -> PullEntryView {
        PullEntryView { number: self.number, title: self.title.deep_view() }
    }
}

impl DeepView for PullEntry {
    type V = PullEntryView;

    open spec fn deep_view(&self) -> PullEntryView {
        self@
    }
}

impl View for IssuePage {
    type V = IssuePageView;

    open spec fn view(&self) -> IssuePageView {
        IssuePageView { total_count: self.total_count, items: self.items.deep_view() }
    }
}

impl View for PullPage {
    type V = PullPageView;

    open spec fn view(&self) -> PullPageView {
        PullPageView { total_count: self.total_count, items: self.items.deep_view() }
    }
}

/// The key of a repository in the GitHub cache: owner, a slash, name.
pub open spec fn cache_key_of(owner: Seq<char>, repo: Seq<char>) -> Seq<char> {
    owner + seq!['/'] + repo
}

/// The total of a query: the one that the endpoint reports, else the number of items on
/// the page.
pub open spec fn total_of(total_count: Option<u64>, items: nat) -> int {
    match total_count {
        Some(total) => total as int,
        None => items as int,
    }
}

/// A count as the data holds it: the largest `usize` stands for anything larger.
pub open spec fn as_count(n: int) -> usize {
    if n <= 0 {
        0
    } else if n > usize::MAX {
        usize::MAX
    } else {
        n as usize
    }
}

/// The number of open issues that are no pull requests. The issues endpoint counts pull
/// requests too, so their total is taken off; the result is never negative.
pub open spec fn corrected_issue_count(total_issues: int, total_prs: int) -> int {
    if total_issues >= total_prs {
        total_issues - total_prs
    } else {
        0
    }
}

/// The first [`RECENT_ITEMS`] items of a list, or all of a shorter list.
pub open spec fn capped<T>(items: Seq<T>) -> Seq<T> {
    if items.len() > RECENT_ITEMS {
        items.take(RECENT_ITEMS as int)
    } else {
        items
    }
}

/// An entry of the issues page as the dashboard lists it.
pub open spec fn issue_item(entry: IssueEntryView) -> GitHubItemView {
    GitHubItemView { number: entry.number, title: entry.title }
}

/// An entry of the pull requests page as the dashboard lists it.
pub open spec fn pull_item(entry: PullEntryView) -> GitHubItemView {
    GitHubItemView {
        number: entry.number,
        title: match entry.title {
            Some(title) => title,
            None => "(no title)"@,
        },
    }
}

/// The recent issues: the page's entries that are no pull requests, in the page's order,
/// capped.
pub open spec fn recent_issues_of(items: Seq<IssueEntryView>) -> Seq<GitHubItemView> {
    capped(items.filter(|e: IssueEntryView| !e.is_pull_request)).map_values(
        |e: IssueEntryView| issue_item(e),
    )
}

/// The recent pull requests: the page's entries in the page's order, capped.
pub open spec fn recent_prs_of(items: Seq<PullEntryView>) -> Seq<GitHubItemView> {
    capped(items).map_values(|e: PullEntryView| pull_item(e))
}

/// What the dashboard shows of a repository, from the two pages that GitHub answered.
pub open spec fn repo_data_of(issues: IssuePageView, pulls: PullPageView) -> GitHubDataView {
    let total_issues = total_of(issues.total_count, issues.items.len());
    let total_prs = total_of(pulls.total_count, pulls.items.len());
    GitHubDataView {
        open_issues: as_count(corrected_issue_count(total_issues, total_prs)),
        open_prs: as_count(total_prs),
        recent_issues: recent_issues_of(issues.items),
        recent_prs: recent_prs_of(pulls.items),
    }
}

/// The key of a repository in the GitHub cache.
pub fn cache_key(owner: &str, repo: &str) -> (key: String)
    ensures
        key@ == cache_key_of(owner@, repo@),
{
    proof {
        reveal_strlit("/");
    }
    let mut key = owner.to_owned();
    key.append("/");
    key.append(repo);
    assert("/"@ =~= seq!['/']);
    key
}

/// What the cache holds for a repository, if it was written less than an hour before
/// `now`.
pub fn get_cached(cache: &TtlCache<GitHubData>, owner: &str, repo: &str, now: u64) -> (r: Option<
    GitHubData,
>)
    requires
        cache.wf(),
    ensures
        r.deep_view() == lookup(cache@, cache_key_of(owner@, repo@), now),
{
    let key = cache_key(owner, repo);
    match cache.get(&key, now) {
        Some(data) => Some(data.duplicate()),
        None => None,
    }
}

/// Writes a repository's data into the cache with the time `now`, over any entry that
/// was there.
pub fn set_cached(
    cache: &mut TtlCache<GitHubData>,
    owner: &str,
    repo: &str,
    data: &GitHubData,
    now: u64,
)
    requires
        old(cache).wf(),
    ensures
        final(cache).wf(),
        final(cache)@ == old(cache)@.insert(cache_key_of(owner@, repo@), (data@, now)),
{
    cache.put(cache_key(owner, repo), data.duplicate(), now);
}

/// Takes a repository's entry out of the cache; every other entry stays.
pub fn invalidate_cached(cache: &mut TtlCache<GitHubData>, owner: &str, repo: &str)
    requires
        old(cache).wf(),
    ensures
        final(cache).wf(),
        final(cache)@ == old(cache)@.remove(cache_key_of(owner@, repo@)),
{
    let key = cache_key(owner, repo);
    cache.remove(&key);
}

/// A number of items as a 64 bit count.
fn count_of(n: usize) -> (r: u64)
    ensures
        r == n,
{
    n as u64
}

/// A count as the data holds it.
fn to_count(n: u64) -> (r: usize)
    ensures
        r == as_count(n as int),
{
    if n > usize::MAX as u64 {
        usize::MAX
    } else {
        n as usize
    }
}

/// The recent issues of a page.
fn recent_issues(items: &Vec<IssueEntry>) -> (r: Vec<GitHubItem>)
    ensures
        r.deep_view() == recent_issues_of(items.deep_view()),
{
    let ghost keep = |e: IssueEntryView| !e.is_pull_request;
    let ghost shown = |e: IssueEntryView| issue_item(e);
    let mut r: Vec<GitHubItem> = Vec::new();
    let mut i: usize = 0;
    assert(items.deep_view().take(0) =~= Seq::<IssueEntryView>::empty());
    while i < items.len()
        invariant
            i <= items.len(),
            keep == |e: IssueEntryView| !e.is_pull_request,
            shown == |e: IssueEntryView| issue_item(e),
            r.deep_view() == capped(items.deep_view().take(i as int).filter(keep)).map_values(
                shown,
            ),
        decreases items.len() - i,
    {
        let ghost seen = items.deep_view().take(i as int);
        let ghost before = r.deep_view();
        proof {
            assert(items.deep_view().take(i + 1) =~= seen.push(items.deep_view()[i as int]));
            seen.lemma_filter_push(items.deep_view()[i as int], keep);
        }
        if !items[i].is_pull_request && r.len() < RECENT_ITEMS as usize {
            let item = GitHubItem { number: items[i].number, title: items[i].title.clone() };
            r.push(item);
            assert(r.deep_view() =~= before.push(item@));
        }
        assert(r.deep_view() =~= capped(
            items.deep_view().take(i + 1).filter(keep),
        ).map_values(shown));
        i += 1;
    }
    assert(items.deep_view().take(items.len() as int) =~= items.deep_view());
    r
}

/// The recent pull requests of a page.
fn recent_prs(items: &Vec<PullEntry>) -> (r: Vec<GitHubItem>)
    ensures
        r.deep_view() == recent_prs_of(items.deep_view()),
{
    let ghost shown = |e: PullEntryView| pull_item(e);
    let mut r: Vec<GitHubItem> = Vec::new();
    let mut i: usize = 0;
    while i < items.len() && i < RECENT_ITEMS as usize
        invariant
            i <= items.len(),
            i <= RECENT_ITEMS,
            shown == |e: PullEntryView| pull_item(e),
            r.deep_view() == items.deep_view().take(i as int).map_values(shown),
        decreases items.len() - i,
    {
        let ghost before = r.deep_view();
        let title = match &items[i].title {
            Some(title) => title.clone(),
            None => "(no title)".to_owned(),
        };
        let item = GitHubItem { number: items[i].number, title };
        r.push(item);
        assert(r.deep_view() =~= before.push(item@));
        assert(r.deep_view() =~= items.deep_view().take(i + 1).map_values(shown));
        i += 1;
    }
    assert(items.deep_view().take(items.len() as int) =~= items.deep_view());
    r
}

/// Reconciles the two pages that GitHub answered into what the dashboard shows: the
/// corrected counts and the recent items.
pub fn build_repo_data(issues: &IssuePage, pulls: &PullPage) -> (data: GitHubData)
    ensures
        data@ == repo_data_of(issues@, pulls@),
{
    let total_issues = match issues.total_count {
        Some(total) => total,
        None => count_of(issues.items.len()),
    };
    let total_prs = match pulls.total_count {
        Some(total) => total,
        None => count_of(pulls.items.len()),
    };
    GitHubData {
        open_issues: to_count(total_issues.saturating_sub(total_prs)),
        open_prs: to_count(total_prs),
        recent_issues: recent_issues(&issues.items),
        recent_prs: recent_prs(&pulls.items),
    }
}

/// How a fetch goes on after the look into the cache.
#[derive(Debug, Clone, PartialEq, Eq)]
pub enum FetchPlan {
    /// The cache answered: no query is made.
    Cached(GitHubData),
    /// Ask GitHub for the open issues and the open pull requests, `per_page` of each.
    Query { per_page: u8 },
}

/// The first half of a fetch: a fresh cache entry answers it, else both queries are due.
pub fn plan_fetch(cache: &TtlCache<GitHubData>, owner: &str, repo: &str, now: u64) -> (plan:
    FetchPlan)
    requires
        cache.wf(),
    ensures
        match lookup(cache@, cache_key_of(owner@, repo@), now) {
            Some(data) => plan matches FetchPlan::Cached(d) && d@ == data,
            None => plan == (FetchPlan::Query { per_page: RECENT_ITEMS }),
        },
{
    match get_cached(cache, owner, repo, now) {
        Some(data) => FetchPlan::Cached(data),
        None => FetchPlan::Query { per_page: RECENT_ITEMS },
    }
}

/// The second half of a fetch, once both queries were answered: reconciles the pages,
/// writes the result into the cache with the time `now`, and returns it.
pub fn finish_fetch(
    cache: &mut TtlCache<GitHubData>,
    owner: &str,
    repo: &str,
    issues: &IssuePage,
    pulls: &PullPage,
    now: u64,
) -> (data: GitHubData)
    requires
        old(cache).wf(),
    ensures
        final(cache).wf(),
        data@ == repo_data_of(issues@, pulls@),
        final(cache)@ == old(cache)@.insert(cache_key_of(owner@, repo@), (data@, now)),
{
    let data = build_repo_data(issues, pulls);
    set_cached(cache, owner, repo, &data, now);
    data
}

/// The message that reports a fetch for the repository at `path`: the data where it
/// succeeded, the error's text where it failed.
pub fn fetch_message(path: String, outcome: Result<GitHubData, String>) -> (msg: Message)
    ensures
        msg@ == match outcome {
            Ok(data) => MessageView::GitHubDataReceived { path: path@, data: data@ },
            Err(error) => MessageView::GitHubError { path: path@, error: error@ },
        },
{
    match outcome {
        Ok(data) => Message::GitHubDataReceived { path, data },
        Err(error) => Message::GitHubError { path, error },
    }
}

/// A corrected issue count is never negative, and where there are at least as many
/// issues as pull requests it is their difference.
pub proof fn law_issue_count_correction(total_issues: int, total_prs: int)
    ensures
        corrected_issue_count(total_issues, total_prs) >= 0,
        total_issues >= total_prs ==> corrected_issue_count(total_issues, total_prs)
            == total_issues - total_prs,
        total_issues < total_prs ==> corrected_issue_count(total_issues, total_prs) == 0,
{
}

/// `item` shows an entry of the page that is no pull request.
pub open spec fn shows_an_issue(items: Seq<IssueEntryView>, item: GitHubItemView) -> bool {
    exists|j: int|
        0 <= j < items.len() && !(#[trigger] items[j]).is_pull_request && issue_item(items[j])
            == item
}

/// The recent lists never hold more than [`RECENT_ITEMS`] items, and no pull request is
/// listed among the recent issues.
pub proof fn law_recent_lists_are_capped(issues: IssuePageView, pulls: PullPageView)
    ensures
        repo_data_of(issues, pulls).recent_issues.len() <= RECENT_ITEMS,
        repo_data_of(issues, pulls).recent_prs.len() <= RECENT_ITEMS,
        forall|i: int|
            0 <= i < repo_data_of(issues, pulls).recent_issues.len() ==> shows_an_issue(
                issues.items,
                #[trigger] repo_data_of(issues, pulls).recent_issues[i],
            ),
{
    let keep = |e: IssueEntryView| !e.is_pull_request;
    let kept = issues.items.filter(keep);
    let recent = repo_data_of(issues, pulls).recent_issues;
    assert forall|i: int| 0 <= i < recent.len() implies shows_an_issue(
        issues.items,
        #[trigger] recent[i],
    ) by {
        assert(recent.len() == capped(kept).len());
        assert(capped(kept)[i] == kept[i]);
        issues.items.lemma_filter_pred(keep, i);
        assert(kept.contains(kept[i]));
        issues.items.lemma_filter_contains_rev(keep, kept[i]);
        let j = choose|j: int| 0 <= j < issues.items.len() && issues.items[j] == kept[i];
        assert(issue_item(issues.items[j]) == recent[i]);
    }
}

} // verus!
