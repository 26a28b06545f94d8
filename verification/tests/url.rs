use project_dash::url::parse_github_url;

fn pair(owner: &str, repo: &str) -> Option<(String, String)> {
    Some((owner.to_string(), repo.to_string()))
}

#[test]
fn test_parse_github_ssh_url() {
    let result = parse_github_url("git@github.com:user/repo.git");
    assert_eq!(result, Some(("user".to_string(), "repo".to_string())));
}

#[test]
fn test_parse_github_https_url() {
    let result = parse_github_url("https://github.com/user/repo.git");
    assert_eq!(result, Some(("user".to_string(), "repo".to_string())));
}

#[test]
fn test_parse_github_https_no_git_suffix() {
    let result = parse_github_url("https://github.com/user/repo");
    assert_eq!(result, Some(("user".to_string(), "repo".to_string())));
}

#[test]
fn test_parse_non_github_url() {
    let result = parse_github_url("https://gitlab.com/user/repo.git");
    assert_eq!(result, None);
}

#[test]
fn ssh_without_git_suffix() {
    assert_eq!(parse_github_url("git@github.com:rust-lang/cargo"), pair("rust-lang", "cargo"));
}

#[test]
fn ssh_name_may_hold_slashes() {
    assert_eq!(parse_github_url("git@github.com:owner/group/repo.git"), pair("owner", "group/repo"));
}

#[test]
fn ssh_strips_only_one_git_suffix() {
    assert_eq!(parse_github_url("git@github.com:owner/repo.git.git"), pair("owner", "repo.git"));
}

#[test]
fn ssh_without_slash_yields_nothing() {
    assert_eq!(parse_github_url("git@github.com:justaname.git"), None);
}

#[test]
fn https_takes_the_last_two_segments() {
    assert_eq!(
        parse_github_url("https://github.com/enterprise/owner/repo.git"),
        pair("owner", "repo")
    );
}

#[test]
fn https_with_trailing_slash_has_empty_name() {
    assert_eq!(parse_github_url("https://github.com/owner/"), pair("owner", ""));
}

#[test]
fn any_address_that_names_the_host_is_read() {
    assert_eq!(parse_github_url("ssh://git@github.com/owner/repo.git"), pair("owner", "repo"));
    assert_eq!(parse_github_url("github.com/repo"), pair("github.com", "repo"));
}

#[test]
fn addresses_without_the_host_yield_nothing() {
    assert_eq!(parse_github_url(""), None);
    assert_eq!(parse_github_url("git@gitlab.com:user/repo.git"), None);
    assert_eq!(parse_github_url("https://example.com/github/repo"), None);
    assert_eq!(parse_github_url("github.co/user/repo"), None);
}

#[test]
fn host_without_slash_yields_nothing() {
    assert_eq!(parse_github_url("github.com"), None);
}

#[test]
fn formatted_pairs_read_back() {
    let owners = ["user", "rust-lang", "a", "", "ユーザー"];
    let repos = ["repo", "my.repo", "x", "π"];
    for owner in owners {
        for repo in repos {
            let ssh = format!("git@github.com:{owner}/{repo}.git");
            let https = format!("https://github.com/{owner}/{repo}.git");
            assert_eq!(parse_github_url(&ssh), pair(owner, repo));
            assert_eq!(parse_github_url(&https), pair(owner, repo));
        }
    }
}
