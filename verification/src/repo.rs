use vstd::prelude::*;
use crate::text::{copy_of, copy_strings};

verus! {

/// Whether a working tree differs from its last commit, and by how many files.
#[derive(Debug, Clone, PartialEq, Eq)]
pub enum RepoStatus {
    Clean,
    Dirty { modified: usize, added: usize, deleted: usize },
}

/// One issue or pull request: its number and its title.
#[derive(Debug, Clone, PartialEq, Eq)]
pub struct GitHubItem {
    pub number: u64,
    pub title: String,
}

/// What GitHub reports of one repository.
#[derive(Debug, Clone, PartialEq, Eq)]
pub struct GitHubData {
    pub open_issues: usize,
    pub open_prs: usize,
    pub recent_issues: Vec<GitHubItem>,
    pub recent_prs: Vec<GitHubItem>,
}

/// One commit of the recent history.
#[derive(Debug, Clone, PartialEq, Eq)]
pub struct CommitInfo {
    pub hash: String,
    pub message: String,
    pub author: String,
    pub date: String,
}

/// One discovered repository. `path` identifies it.
#[derive(Debug, Clone, PartialEq, Eq)]
pub struct RepoInfo {
    pub name: String,
    pub path: String,
    pub status: RepoStatus,
    pub current_branch: String,
    pub branches: Vec<String>,
    pub remote_url: Option<String>,
    pub github_repo: Option<(String, String)>,
    pub github_data: Option<GitHubData>,
    pub github_error: Option<String>,
    pub recent_commits: Vec<CommitInfo>,
    pub changed_files: Vec<String>,
}

/// The mathematical value of a [`GitHubItem`].
pub struct GitHubItemView {
    pub number: u64,
    pub title: Seq<char>,
}

/// The mathematical value of a [`GitHubData`].
pub struct GitHubDataView {
    pub open_issues: usize,
    pub open_prs: usize,
    pub recent_issues: Seq<GitHubItemView>,
    pub recent_prs: Seq<GitHubItemView>,
}

/// The mathematical value of a [`CommitInfo`].
pub struct CommitInfoView {
    pub hash: Seq<char>,
    pub message: Seq<char>,
    pub author: Seq<char>,
    pub date: Seq<char>,
}

/// The mathematical value of a [`RepoInfo`].
pub struct RepoInfoView {
    pub name: Seq<char>,
    pub path: Seq<char>,
    pub status: RepoStatus,
    pub current_branch: Seq<char>,
    pub branches: Seq<Seq<char>>,
    pub remote_url: Option<Seq<char>>,
    pub github_repo: Option<(Seq<char>, Seq<char>)>,
    pub github_data: Option<GitHubDataView>,
    pub github_error: Option<Seq<char>>,
    pub recent_commits: Seq<CommitInfoView>,
    pub changed_files: Seq<Seq<char>>,
}

impl View for GitHubItem {
    type V = GitHubItemView;

    open spec fn view(&self) -> GitHubItemView {
        GitHubItemView { number: self.number, title: self.title@ }
    }
}

impl DeepView for GitHubItem {
    type V = GitHubItemView;

    open spec fn deep_view(&self) -> GitHubItemView {
        self@
    }
}

impl View for GitHubData {
    type V = GitHubDataView;

    open spec fn view(&self) -> GitHubDataView {
        GitHubDataView {
            open_issues: self.open_issues,
            open_prs: self.open_prs,
            recent_issues: self.recent_issues.deep_view(),
            recent_prs: self.recent_prs.deep_view(),
        }
    }
}

impl DeepView for GitHubData {
    type V = GitHubDataView;

    open spec fn deep_view(&self) -> GitHubDataView {
        self@
    }
}

impl View for CommitInfo {
    type V = CommitInfoView;

    open spec fn view(&self) -> CommitInfoView {
        CommitInfoView {
            hash: self.hash@,
            message: self.message@,
            author: self.author@,
            date: self.date@,
        }
    }
}

impl DeepView for CommitInfo {
    type V = CommitInfoView;

    open spec fn deep_view(&self) -> CommitInfoView {
        self@
    }
}

impl View for RepoInfo {
    type V = RepoInfoView;

    open spec fn view(&self) -> RepoInfoView {
        RepoInfoView {
            name: self.name@,
            path: self.path@,
            status: self.status,
            current_branch: self.current_branch@,
            branches: self.branches.deep_view(),
            remote_url: self.remote_url.deep_view(),
            github_repo: self.github_repo.deep_view(),
            github_data: self.github_data.deep_view(),
            github_error: self.github_error.deep_view(),
            recent_commits: self.recent_commits.deep_view(),
            changed_files: self.changed_files.deep_view(),
        }
    }
}

impl DeepView for RepoInfo {
    type V = RepoInfoView;

    open spec fn deep_view(&self) -> RepoInfoView {
        self@
    }
}

impl RepoInfoView {
    /// A repository never shows fetched data and a fetch error at once.
    pub open spec fn wf(self) -> bool {
        !(self.github_data is Some && self.github_error is Some)
    }
}

impl RepoStatus {
    /// A copy of the status.
    pub fn duplicate(&self) -> (r: Self)
        ensures
            r == *self,
    {
        match self {
            RepoStatus::Clean => RepoStatus::Clean,
            RepoStatus::Dirty { modified, added, deleted } => RepoStatus::Dirty {
                modified: *modified,
                added: *added,
                deleted: *deleted,
            },
        }
    }
}

impl GitHubItem {
    /// A copy of the item.
    pub fn duplicate(&self) -> (r: Self)
        ensures
            r@ == self@,
    {
        GitHubItem { number: self.number, title: self.title.clone() }
    }
}

/// A copy of a list of issues or pull requests.
pub fn copy_items(list: &Vec<GitHubItem>) -> (r: Vec<GitHubItem>)
    ensures
        r.deep_view() == list.deep_view(),
{
    let mut r: Vec<GitHubItem> = Vec::new();
    let mut i: usize = 0;
    while i < list.len()
        invariant
            i <= list.len(),
            r.deep_view() == list.deep_view().take(i as int),
        decreases list.len() - i,
    {
        let ghost before = r.deep_view();
        let item = list[i].duplicate();
        r.push(item);
        assert(r.deep_view() =~= before.push(item.deep_view()));
        assert(r.deep_view() =~= list.deep_view().take(i + 1));
        i += 1;
    }
    assert(list.deep_view().take(list.len() as int) =~= list.deep_view());
    r
}

impl GitHubData {
    /// A copy of the data.
    pub fn duplicate(&self) -> (r: Self)
        ensures
            r@ == self@,
    {
        GitHubData {
            open_issues: self.open_issues,
            open_prs: self.open_prs,
            recent_issues: copy_items(&self.recent_issues),
            recent_prs: copy_items(&self.recent_prs),
        }
    }
}

impl CommitInfo {
    /// A copy of the commit.
    pub fn duplicate(&self) -> (r: Self)
        ensures
            r@ == self@,
    {
        CommitInfo {
            hash: self.hash.clone(),
            message: self.message.clone(),
            author: self.author.clone(),
            date: self.date.clone(),
        }
    }
}

/// A copy of a list of commits.
pub fn copy_commits(list: &Vec<CommitInfo>) -> (r: Vec<CommitInfo>)
    ensures
        r.deep_view() == list.deep_view(),
{
    let mut r: Vec<CommitInfo> = Vec::new();
    let mut i: usize = 0;
    while i < list.len()
        invariant
            i <= list.len(),
            r.deep_view() == list.deep_view().take(i as int),
        decreases list.len() - i,
    {
        let ghost before = r.deep_view();
        let item = list[i].duplicate();
        r.push(item);
        assert(r.deep_view() =~= before.push(item.deep_view()));
        assert(r.deep_view() =~= list.deep_view().take(i + 1));
        i += 1;
    }
    assert(list.deep_view().take(list.len() as int) =~= list.deep_view());
    r
}

impl RepoInfo {
    /// A copy of the repository's record.
    pub fn duplicate(&self) -> (r: Self)
        ensures
            r@ == self@,
    {
        RepoInfo {
            name: self.name.clone(),
            path: self.path.clone(),
            status: self.status.duplicate(),
            current_branch: self.current_branch.clone(),
            branches: copy_strings(&self.branches),
            remote_url: copy_of(&self.remote_url),
            github_repo: match &self.github_repo {
                Some(pair) => Some((pair.0.clone(), pair.1.clone())),
                None => None,
            },
            github_data: match &self.github_data {
                Some(data) => Some(data.duplicate()),
                None => None,
            },
            github_error: copy_of(&self.github_error),
            recent_commits: copy_commits(&self.recent_commits),
            changed_files: copy_strings(&self.changed_files),
        }
    }
}

} // verus!
