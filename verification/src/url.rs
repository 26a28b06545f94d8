use vstd::prelude::*;
use vstd::string::*;
use crate::seq_util::{
    is_first_where, is_last_where, lemma_first_where_some, lemma_last_where_none,
    lemma_last_where_some, none_where,
};
use crate::text::{
    chars_of, contains_text, ends_with, find_first, find_last, first_char, has_prefix, has_suffix,
    is_char, last_char, occurs_at, occurs_in, slice_of, starts_with, string_of,
};

verus! {

/// What an SSH address of a GitHub repository begins with.
pub open spec fn ssh_prefix() -> Seq<char> {
    "git@github.com:"@
}

/// What a clone address may end with.
pub open spec fn git_suffix() -> Seq<char> {
    ".git"@
}

/// GitHub's host name.
pub open spec fn github_host() -> Seq<char> {
    "github.com"@
}

/// `s` without one trailing `.git`, if it ends with one.
pub open spec fn without_git_suffix(s: Seq<char>) -> Seq<char> {
    if has_suffix(s, git_suffix()) {
        s.take(s.len() - git_suffix().len())
    } else {
        s
    }
}

/// The SSH form: the prefix, the owner up to the first slash, the name after it, and
/// perhaps `.git`.
pub open spec fn parse_ssh(url: Seq<char>) -> Option<(Seq<char>, Seq<char>)> {
    if has_prefix(url, ssh_prefix()) {
        let rest = without_git_suffix(url.skip(ssh_prefix().len() as int));
        match first_char(rest, '/') {
            Some(i) => Some((rest.take(i), rest.skip(i + 1))),
            None => None,
        }
    } else {
        None
    }
}

/// The HTTPS form: any address that names GitHub's host. The name is what follows the
/// last slash, the owner what stands between the last slash and the one before it, or
/// all before the last slash where there is no other; a trailing `.git` does not count.
pub open spec fn parse_https(url: Seq<char>) -> Option<(Seq<char>, Seq<char>)> {
    if occurs_in(github_host(), url) {
        let trimmed = without_git_suffix(url);
        match last_char(trimmed, '/') {
            Some(j) => {
                let head = trimmed.take(j);
                let owner = match last_char(head, '/') {
                    Some(k) => head.skip(k + 1),
                    None => head,
                };
                Some((owner, trimmed.skip(j + 1)))
            },
            None => None,
        }
    } else {
        None
    }
}

/// The owner and the name of the GitHub repository that an address points at: the SSH
/// form is tried first, then the HTTPS form.
pub open spec fn github_coordinates(url: Seq<char>) -> Option<(Seq<char>, Seq<char>)> {
    match parse_ssh(url) {
        Some(pair) => Some(pair),
        None => parse_https(url),
    }
}

/// The SSH address of `owner/repo`.
pub open spec fn ssh_url(owner: Seq<char>, repo: Seq<char>) -> Seq<char> {
    ssh_prefix() + owner + seq!['/'] + repo + git_suffix()
}

/// The HTTPS address of `owner/repo`, with `.git`.
pub open spec fn https_url(owner: Seq<char>, repo: Seq<char>) -> Seq<char> {
    "https://github.com/"@ + owner + seq!['/'] + repo + git_suffix()
}

/// The text without one trailing `.git`.
fn trim_git_suffix(v: Vec<char>) -> (r: Vec<char>)
    ensures
        r@ == without_git_suffix(v@),
{
    let suffix = chars_of(".git");
    if ends_with(&v, &suffix) {
        let r = slice_of(&v, 0, v.len() - suffix.len());
        assert(r@ =~= v@.take(v@.len() - git_suffix().len()));
        r
    } else {
        v
    }
}

/// Reads an address of the SSH form.
fn parse_ssh_chars(url: &Vec<char>) -> (r: Option<(String, String)>)
    ensures
        r.deep_view() == parse_ssh(url@),
{
    let prefix = chars_of("git@github.com:");
    if !starts_with(url, &prefix) {
        return None;
    }
    let tail = slice_of(url, prefix.len(), url.len());
    assert(tail@ =~= url@.skip(ssh_prefix().len() as int));
    let rest = trim_git_suffix(tail);
    match find_first(&rest, '/') {
        Some(i) => {
            let owner = slice_of(&rest, 0, i);
            let name = slice_of(&rest, i + 1, rest.len());
            assert(owner@ =~= rest@.take(i as int));
            assert(name@ =~= rest@.skip(i + 1));
            Some((string_of(&owner), string_of(&name)))
        },
        None => None,
    }
}

/// Reads an address of the HTTPS form.
fn parse_https_chars(url: Vec<char>) -> (r: Option<(String, String)>)
    ensures
        r.deep_view() == parse_https(url@),
{
    let host = chars_of("github.com");
    if !contains_text(&url, &host) {
        return None;
    }
    let trimmed = trim_git_suffix(url);
    match find_last(&trimmed, '/') {
        Some(j) => {
            let head = slice_of(&trimmed, 0, j);
            let name = slice_of(&trimmed, j + 1, trimmed.len());
            assert(head@ =~= trimmed@.take(j as int));
            assert(name@ =~= trimmed@.skip(j + 1));
            let owner = match find_last(&head, '/') {
                Some(k) => {
                    let owner = slice_of(&head, k + 1, head.len());
                    assert(owner@ =~= head@.skip(k + 1));
                    owner
                },
                None => head,
            };
            Some((string_of(&owner), string_of(&name)))
        },
        None => None,
    }
}

/// Reads the owner and the name of a GitHub repository off a remote address. Returns
/// nothing for an address that names another host or has no slash where one is due.
pub fn parse_github_url(url: &str) -> (r: Option<(String, String)>)
    ensures
        r.deep_view() == github_coordinates(url@),
{
    let chars = chars_of(url);
    match parse_ssh_chars(&chars) {
        Some(pair) => Some(pair),
        None => parse_https_chars(chars),
    }
}

/// Formatting a pair as an SSH address and reading it back yields the pair, for every
/// owner without a slash.
pub proof fn law_ssh_round_trip(owner: Seq<char>, repo: Seq<char>)
    requires
        !owner.contains('/'),
    ensures
        github_coordinates(ssh_url(owner, repo)) == Some((owner, repo)),
{
    let url = ssh_url(owner, repo);
    let prefix = ssh_prefix();
    let suffix = git_suffix();
    assert(url.take(prefix.len() as int) =~= prefix);
    let tail = url.skip(prefix.len() as int);
    assert(tail =~= owner + seq!['/'] + repo + suffix);
    assert(tail.skip(tail.len() - suffix.len()) =~= suffix);
    let rest = without_git_suffix(tail);
    assert(rest =~= owner + seq!['/'] + repo);
    let at = owner.len() as int;
    assert(is_first_where(rest, is_char('/'), at)) by {
        assert(rest[at] == '/');
        assert forall|j: int| 0 <= j < at implies !is_char('/')(#[trigger] rest[j]) by {
            assert(rest[j] == owner[j]);
            assert(owner.contains(owner[j]));
        }
    }
    lemma_first_where_some(rest, is_char('/'), at);
    assert(rest.take(at) =~= owner);
    assert(rest.skip(at + 1) =~= repo);
}

/// Formatting a pair as an HTTPS address with `.git` and reading it back yields the pair,
/// for every owner and name without a slash.
pub proof fn law_https_round_trip(owner: Seq<char>, repo: Seq<char>)
    requires
        !owner.contains('/'),
        !repo.contains('/'),
    ensures
        github_coordinates(https_url(owner, repo)) == Some((owner, repo)),
{
    reveal_strlit("https://github.com/");
    reveal_strlit("git@github.com:");
    reveal_strlit("github.com");
    let base = "https://github.com/"@;
    let url = https_url(owner, repo);
    let suffix = git_suffix();
    assert(parse_ssh(url) is None) by {
        assert(url[0] == 'h');
        if has_prefix(url, ssh_prefix()) {
            assert(url.take(ssh_prefix().len() as int)[0] == ssh_prefix()[0]);
        }
    }
    assert(occurs_at(github_host(), url, 8)) by {
        assert(url.subrange(8, 18) =~= github_host());
    }
    assert(url.skip(url.len() - suffix.len()) =~= suffix);
    let trimmed = without_git_suffix(url);
    assert(trimmed =~= base + owner + seq!['/'] + repo);
    let j: int = (base.len() + owner.len()) as int;
    assert(is_last_where(trimmed, is_char('/'), j)) by {
        assert(trimmed[j] == '/');
        assert forall|m: int| j < m < trimmed.len() implies !is_char('/')(
            #[trigger] trimmed[m],
        ) by {
            assert(trimmed[m] == repo[m - j - 1]);
            assert(repo.contains(repo[m - j - 1]));
        }
    }
    lemma_last_where_some(trimmed, is_char('/'), j);
    let head = trimmed.take(j);
    assert(head =~= base + owner);
    let k: int = base.len() - 1;
    assert(is_last_where(head, is_char('/'), k)) by {
        assert(head[k] == '/');
        assert forall|m: int| k < m < head.len() implies !is_char('/')(#[trigger] head[m]) by {
            assert(head[m] == owner[m - k - 1]);
            assert(owner.contains(owner[m - k - 1]));
        }
    }
    lemma_last_where_some(head, is_char('/'), k);
    assert(head.skip(k + 1) =~= owner);
    assert(trimmed.skip(j + 1) =~= repo);
}

/// An address that does not name GitHub's host yields nothing.
pub proof fn law_other_hosts_yield_nothing(url: Seq<char>)
    requires
        !occurs_in(github_host(), url),
    ensures
        github_coordinates(url) is None,
{
    reveal_strlit("git@github.com:");
    reveal_strlit("github.com");
    if has_prefix(url, ssh_prefix()) {
        let prefix = url.take(ssh_prefix().len() as int);
        assert(url.subrange(4, 14) =~= prefix.subrange(4, 14));
        assert(prefix.subrange(4, 14) =~= github_host());
        assert(occurs_at(github_host(), url, 4));
    }
}

/// An address without a slash yields nothing.
pub proof fn law_no_slash_yields_nothing(url: Seq<char>)
    requires
        !url.contains('/'),
    ensures
        github_coordinates(url) is None,
{
    let trimmed = without_git_suffix(url);
    assert(none_where(trimmed, is_char('/'))) by {
        assert forall|m: int| 0 <= m < trimmed.len() implies !is_char('/')(#[trigger] trimmed[m]) by {
            assert(trimmed[m] == url[m]);
            assert(url.contains(url[m]));
        }
    }
    lemma_last_where_none(trimmed, is_char('/'));
    if has_prefix(url, ssh_prefix()) {
        let tail = url.skip(ssh_prefix().len() as int);
        let rest = without_git_suffix(tail);
        assert(none_where(rest, is_char('/'))) by {
            assert forall|m: int| 0 <= m < rest.len() implies !is_char('/')(#[trigger] rest[m]) by {
                assert(rest[m] == url[m + ssh_prefix().len()]);
                assert(url.contains(url[m + ssh_prefix().len()]));
            }
        }
        crate::seq_util::lemma_first_where_none(rest, is_char('/'));
    }
}

} // verus!
