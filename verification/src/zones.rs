use vstd::prelude::*;
use vstd::string::*;
use crate::app::Rect;
use crate::repo::{GitHubItem, GitHubItemView, RepoInfo, RepoInfoView, RepoStatus};
use crate::text::{decimal, lemma_decimal_len, push_decimal};

verus! {

/// The lines of an issues or pull requests tab above the first item: a blank line, the
/// heading, and a blank line.
pub const LINES_ABOVE_ITEMS: usize = 3;

/// The address of a repository's page on GitHub.
pub open spec fn repo_url(owner: Seq<char>, name: Seq<char>) -> Seq<char> {
    "https://github.com/"@ + owner + seq!['/'] + name
}

/// The address of an issue.
pub open spec fn issue_url(owner: Seq<char>, name: Seq<char>, number: u64) -> Seq<char> {
    repo_url(owner, name) + "/issues/"@ + decimal(number as nat)
}

/// The address of the form for a new issue.
pub open spec fn new_issue_url(owner: Seq<char>, name: Seq<char>) -> Seq<char> {
    repo_url(owner, name) + "/issues/new"@
}

/// The address of a pull request.
pub open spec fn pull_url(owner: Seq<char>, name: Seq<char>, number: u64) -> Seq<char> {
    repo_url(owner, name) + "/pull/"@ + decimal(number as nat)
}

/// The cells of line `line` of a tab's content, shown in `area` and scrolled by `scroll`
/// lines, if the line is in sight: one row, as wide as the area.
pub open spec fn line_zone(area: Rect, line: int, scroll: u16) -> Option<Rect> {
    let row = line - scroll;
    if 0 <= row < area.height {
        Some(Rect { x: area.x, y: (area.y + row) as u16, width: area.width, height: 1 })
    } else {
        None
    }
}

/// The width of the status column for a status: one cell for a clean tree, else the
/// width of the three counters, each with its sign, and the blanks between them.
pub open spec fn status_text_width(status: RepoStatus) -> int {
    match status {
        RepoStatus::Clean => 1,
        RepoStatus::Dirty { modified, added, deleted } => (1 + decimal(added as nat).len() + 2
            + decimal(modified as nat).len() + 2 + decimal(deleted as nat).len()) as int,
    }
}

/// The address of a repository's page on GitHub.
pub fn repo_link(owner: &str, name: &str) -> (url: String)
    ensures
        url@ == repo_url(owner@, name@),
{
    proof {
        reveal_strlit("/");
    }
    let mut url = "https://github.com/".to_owned();
    url.append(owner);
    url.append("/");
    url.append(name);
    assert("/"@ =~= seq!['/']);
    url
}

/// The address of an issue.
pub fn issue_link(owner: &str, name: &str, number: u64) -> (url: String)
    ensures
        url@ == issue_url(owner@, name@, number),
{
    let mut url = repo_link(owner, name);
    url.append("/issues/");
    push_decimal(&mut url, number);
    url
}

/// The address of the form for a new issue.
pub fn new_issue_link(owner: &str, name: &str) -> (url: String)
    ensures
        url@ == new_issue_url(owner@, name@),
{
    let mut url = repo_link(owner, name);
    url.append("/issues/new");
    url
}

/// The address of a pull request.
pub fn pull_link(owner: &str, name: &str, number: u64) -> (url: String)
    ensures
        url@ == pull_url(owner@, name@, number),
{
    let mut url = repo_link(owner, name);
    url.append("/pull/");
    push_decimal(&mut url, number);
    url
}

/// The cells of a line of a tab's content, if the line is in sight.
pub fn zone_of_line(area: Rect, line: usize, scroll: u16) -> (zone: Option<Rect>)
    requires
        area.y + area.height <= u16::MAX,
    ensures
        zone == line_zone(area, line as int, scroll),
{
    if line < scroll as usize {
        return None;
    }
    let row = line - scroll as usize;
    if row < area.height as usize {
        Some(Rect { x: area.x, y: area.y + row as u16, width: area.width, height: 1 })
    } else {
        None
    }
}

/// The number of digits of a number in decimal notation.
pub fn decimal_width(n: u64) -> (w: u16)
    ensures
        w == decimal(n as nat).len(),
        1 <= w <= 20,
{
    let mut w: u16 = 1;
    let mut rest = n;
    proof {
        lemma_decimal_len(n as nat);
    }
    while rest >= 10
        invariant
            1 <= w <= 20,
            decimal(n as nat).len() == decimal(rest as nat).len() + w - 1,
            rest as int * pow10((w - 1) as nat) <= n,
        decreases rest,
    {
        proof {
            lemma_decimal_len(rest as nat);
            lemma_pow10_step((w - 1) as nat);
            assert((rest / 10) as int * pow10(w as nat) <= n) by (nonlinear_arith)
                requires
                    rest as int * pow10((w - 1) as nat) <= n,
                    pow10(w as nat) == 10 * pow10((w - 1) as nat),
                    (rest / 10) as int * 10 <= rest as int,
                    pow10((w - 1) as nat) >= 0,
            ;
            if w == 20 {
                lemma_pow10_20();
                assert(false) by (nonlinear_arith)
                    requires
                        (rest / 10) as int * pow10(20) <= n,
                        rest / 10 >= 1,
                        pow10(20) > u64::MAX,
                        n <= u64::MAX,
                ;
            }
        }
        rest = rest / 10;
        w = w + 1;
    }
    proof {
        lemma_decimal_len(rest as nat);
    }
    w
}

/// Ten to the power of `k`.
pub open spec fn pow10(k: nat) -> int
    decreases k,
{
    if k == 0 {
        1
    } else {
        10 * pow10((k - 1) as nat)
    }
}

/// Each power of ten is ten times the one before, and none is below one.
proof fn lemma_pow10_step(k: nat)
    ensures
        pow10(k + 1) == 10 * pow10(k),
        pow10(k) >= 1,
    decreases k,
{
    if k > 0 {
        lemma_pow10_step((k - 1) as nat);
    }
}

/// Ten to the power of twenty is beyond the 64 bit numbers.
proof fn lemma_pow10_20()
    ensures
        pow10(20) > u64::MAX,
{
    reveal_with_fuel(pow10, 21);
}

/// The width of the status column for a repository.
pub fn status_width(repo: &RepoInfo) -> (w: u16)
    ensures
        w == status_text_width(repo.status),
{
    match &repo.status {
        RepoStatus::Clean => 1,
        RepoStatus::Dirty { modified, added, deleted } => {
            1 + decimal_width(*added as u64) + 2 + decimal_width(*modified as u64) + 2
                + decimal_width(*deleted as u64)
        },
    }
}

/// The line of the `k`-th item of an issues or pull requests tab.
pub open spec fn item_line(k: int) -> int {
    LINES_ABOVE_ITEMS + k
}

/// The line of the link to the form for a new issue, in a tab that lists `count`
/// issues: below the items, or below the line that says that there are none, and a
/// blank line.
pub open spec fn new_issue_line(count: int) -> int {
    if count == 0 {
        LINES_ABOVE_ITEMS + 2
    } else {
        LINES_ABOVE_ITEMS + count + 1
    }
}

/// The clickable zone of the `k`-th listed issue, if its line is in sight.
pub open spec fn issue_zone_at(
    owner: Seq<char>,
    name: Seq<char>,
    items: Seq<GitHubItemView>,
    area: Rect,
    scroll: u16,
) -> spec_fn(int) -> Option<(Rect, Seq<char>)> {
    |k: int|
        match line_zone(area, item_line(k), scroll) {
            Some(zone) => Some((zone, issue_url(owner, name, items[k].number))),
            None => None,
        }
}

/// The clickable zone of the `k`-th listed pull request, if its line is in sight.
pub open spec fn pull_zone_at(
    owner: Seq<char>,
    name: Seq<char>,
    items: Seq<GitHubItemView>,
    area: Rect,
    scroll: u16,
) -> spec_fn(int) -> Option<(Rect, Seq<char>)> {
    |k: int|
        match line_zone(area, item_line(k), scroll) {
            Some(zone) => Some((zone, pull_url(owner, name, items[k].number))),
            None => None,
        }
}

/// The zones that are there, in order.
pub open spec fn present(zones: Seq<Option<(Rect, Seq<char>)>>) -> Seq<(Rect, Seq<char>)> {
    zones.filter(|z: Option<(Rect, Seq<char>)>| z is Some).map_values(
        |z: Option<(Rect, Seq<char>)>| z->0,
    )
}

/// The clickable zones of the issues tab: one for each listed issue in sight, from the
/// top, then the one of the link to the form for a new issue, if in sight.
pub open spec fn issue_zones_of(
    owner: Seq<char>,
    name: Seq<char>,
    items: Seq<GitHubItemView>,
    area: Rect,
    scroll: u16,
) -> Seq<(Rect, Seq<char>)> {
    let rows = present(
        Seq::new(items.len(), issue_zone_at(owner, name, items, area, scroll)),
    );
    match line_zone(area, new_issue_line(items.len() as int), scroll) {
        Some(zone) => rows.push((zone, new_issue_url(owner, name))),
        None => rows,
    }
}

/// The clickable zones of the pull requests tab: one for each listed pull request in
/// sight, from the top.
pub open spec fn pull_zones_of(
    owner: Seq<char>,
    name: Seq<char>,
    items: Seq<GitHubItemView>,
    area: Rect,
    scroll: u16,
) -> Seq<(Rect, Seq<char>)> {
    present(Seq::new(items.len(), pull_zone_at(owner, name, items, area, scroll)))
}

/// The clickable zones of a repository's issues tab. There are none before the
/// repository's data has arrived, and none for a repository that is not on GitHub.
pub open spec fn repo_issue_zones(repo: RepoInfoView, area: Rect, scroll: u16) -> Seq<
    (Rect, Seq<char>),
> {
    match (repo.github_repo, repo.github_data) {
        (Some((owner, name)), Some(data)) => issue_zones_of(
            owner,
            name,
            data.recent_issues,
            area,
            scroll,
        ),
        _ => Seq::empty(),
    }
}

/// The clickable zones of a repository's pull requests tab. There are none before the
/// repository's data has arrived, and none for a repository that is not on GitHub.
pub open spec fn repo_pull_zones(repo: RepoInfoView, area: Rect, scroll: u16) -> Seq<
    (Rect, Seq<char>),
> {
    match (repo.github_repo, repo.github_data) {
        (Some((owner, name)), Some(data)) => pull_zones_of(
            owner,
            name,
            data.recent_prs,
            area,
            scroll,
        ),
        _ => Seq::empty(),
    }
}

/// The cells of a line that lies `offset` lines below line `base`, if it is in sight.
fn zone_below(area: Rect, base: usize, offset: usize, scroll: u16) -> (zone: Option<Rect>)
    requires
        area.y + area.height <= u16::MAX,
        base <= 8,
    ensures
        zone == line_zone(area, base + offset, scroll),
{
    if offset > usize::MAX - base {
        None
    } else {
        zone_of_line(area, base + offset, scroll)
    }
}

/// The clickable zones of the listed items: `issues` tells whether they are issues or
/// pull requests.
fn item_zones(
    owner: &str,
    name: &str,
    items: &Vec<GitHubItem>,
    area: Rect,
    scroll: u16,
    issues: bool,
) -> (zones: Vec<(Rect, String)>)
    requires
        area.y + area.height <= u16::MAX,
    ensures
        zones.deep_view() == present(
            Seq::new(
                items.deep_view().len(),
                if issues {
                    issue_zone_at(owner@, name@, items.deep_view(), area, scroll)
                } else {
                    pull_zone_at(owner@, name@, items.deep_view(), area, scroll)
                },
            ),
        ),
{
    let ghost all = items.deep_view();
    let ghost at = if issues {
        issue_zone_at(owner@, name@, all, area, scroll)
    } else {
        pull_zone_at(owner@, name@, all, area, scroll)
    };
    let ghost keep = |z: Option<(Rect, Seq<char>)>| z is Some;
    let mut zones: Vec<(Rect, String)> = Vec::new();
    let mut i: usize = 0;
    assert(Seq::new(0, at) =~= Seq::<Option<(Rect, Seq<char>)>>::empty());
    while i < items.len()
        invariant
            i <= items.len(),
            area.y + area.height <= u16::MAX,
            all == items.deep_view(),
            at == if issues {
                issue_zone_at(owner@, name@, all, area, scroll)
            } else {
                pull_zone_at(owner@, name@, all, area, scroll)
            },
            keep == |z: Option<(Rect, Seq<char>)>| z is Some,
            zones.deep_view() == present(Seq::new(i as nat, at)),
        decreases items.len() - i,
    {
        let ghost seen = Seq::new(i as nat, at);
        let ghost before = zones.deep_view();
        proof {
            assert(Seq::new((i + 1) as nat, at) =~= seen.push(at(i as int)));
            seen.lemma_filter_push(at(i as int), keep);
        }
        if let Some(zone) = zone_below(area, LINES_ABOVE_ITEMS, i, scroll) {
            let url = if issues {
                issue_link(owner, name, items[i].number)
            } else {
                pull_link(owner, name, items[i].number)
            };
            zones.push((zone, url));
            assert(zones.deep_view() =~= before.push((zone, url@)));
        }
        assert(zones.deep_view() =~= present(Seq::new((i + 1) as nat, at)));
        i += 1;
    }
    zones
}

/// The clickable zones of a repository's issues tab, shown in `area` and scrolled by
/// `scroll` lines.
pub fn issue_zones(repo: &RepoInfo, area: Rect, scroll: u16) -> (zones: Vec<(Rect, String)>)
    requires
        area.y + area.height <= u16::MAX,
    ensures
        zones.deep_view() == repo_issue_zones(repo@, area, scroll),
{
    if let Some(pair) = &repo.github_repo {
        if let Some(data) = &repo.github_data {
            let owner = pair.0.as_str();
            let name = pair.1.as_str();
            let mut zones = item_zones(owner, name, &data.recent_issues, area, scroll, true);
            let ghost rows = zones.deep_view();
            let count = data.recent_issues.len();
            let link = if count == 0 {
                zone_of_line(area, LINES_ABOVE_ITEMS + 2, scroll)
            } else {
                zone_below(area, LINES_ABOVE_ITEMS + 1, count, scroll)
            };
            if let Some(zone) = link {
                let url = new_issue_link(owner, name);
                zones.push((zone, url));
                assert(zones.deep_view() =~= rows.push((zone, url@)));
            }
            return zones;
        }
    }
    let none: Vec<(Rect, String)> = Vec::new();
    assert(none.deep_view() =~= Seq::<(Rect, Seq<char>)>::empty());
    none
}

/// The clickable zones of a repository's pull requests tab, shown in `area` and
/// scrolled by `scroll` lines.
pub fn pull_zones(repo: &RepoInfo, area: Rect, scroll: u16) -> (zones: Vec<(Rect, String)>)
    requires
        area.y + area.height <= u16::MAX,
    ensures
        zones.deep_view() == repo_pull_zones(repo@, area, scroll),
{
    if let Some(pair) = &repo.github_repo {
        if let Some(data) = &repo.github_data {
            return item_zones(
                pair.0.as_str(),
                pair.1.as_str(),
                &data.recent_prs,
                area,
                scroll,
                false,
            );
        }
    }
    let none: Vec<(Rect, String)> = Vec::new();
    assert(none.deep_view() =~= Seq::<(Rect, Seq<char>)>::empty());
    none
}

} // verus!
