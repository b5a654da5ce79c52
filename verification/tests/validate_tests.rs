use vibereport::validate::is_valid_github_name;
use vibereport::validate::is_valid_repo_url;
use vibereport::validate::is_valid_slug;
use vibereport::validate::is_date_shape;
use vibereport::validate::parse_github_ref;
use vibereport::validate::resolve_repo_url;
use vibereport::validate::RepoRefError;

#[test]
fn parses_github_colon_format() {
    let result = parse_github_ref("github:vercel/next.js");
    assert_eq!(result, Some(("vercel".into(), "next.js".into())));
}

#[test]
fn parses_github_url_format() {
    let result = parse_github_ref("https://github.com/octocat/hello-world");
    assert_eq!(result, Some(("octocat".into(), "hello-world".into())));
}

#[test]
fn parses_github_com_format() {
    let result = parse_github_ref("github.com/rust-lang/rust");
    assert_eq!(result, Some(("rust-lang".into(), "rust".into())));
}

#[test]
fn strips_trailing_slash() {
    let result = parse_github_ref("github:user/repo/");
    assert_eq!(result, Some(("user".into(), "repo".into())));
}

#[test]
fn returns_none_for_local_path() {
    assert_eq!(parse_github_ref("/some/local/path"), None);
    assert_eq!(parse_github_ref("."), None);
    assert_eq!(parse_github_ref("./my-project"), None);
}

#[test]
fn returns_none_for_incomplete() {
    assert_eq!(parse_github_ref("github:"), None);
    assert_eq!(parse_github_ref("github:user"), None);
    assert_eq!(parse_github_ref("github:/repo"), None);
}

#[test]
fn valid_github_names() {
    assert!(is_valid_github_name("vercel"));
    assert!(is_valid_github_name("rust-lang"));
    assert!(is_valid_github_name("next.js"));
    assert!(is_valid_github_name("my_repo"));
    assert!(is_valid_github_name("user123"));
}

#[test]
fn rejects_invalid_github_names() {
    assert!(!is_valid_github_name(""));
    assert!(!is_valid_github_name("../etc"));
    assert!(!is_valid_github_name("user/repo"));
    assert!(!is_valid_github_name("a".repeat(256).as_str()));
    assert!(!is_valid_github_name("user name"));
    assert!(!is_valid_github_name("user@name"));
}

#[test]
fn slug_accepts_owner_name_pairs() {
    assert!(is_valid_slug("vercel/next.js"));
    assert!(is_valid_slug("rust-lang/rust"));
    assert!(is_valid_slug("a/b"));
}

#[test]
fn slug_rejects_bad_shapes() {
    assert!(!is_valid_slug(""));
    assert!(!is_valid_slug("noslash"));
    assert!(!is_valid_slug("/name"));
    assert!(!is_valid_slug("owner/"));
    assert!(!is_valid_slug("owner/na me"));
    assert!(!is_valid_slug("owner/name/extra"));
    assert!(!is_valid_slug("../etc/passwd"));
}

#[test]
fn url_accepts_github_repos() {
    assert!(is_valid_repo_url("https://github.com/user/repo"));
    assert!(is_valid_repo_url("https://github.com/user/repo.git"));
}

#[test]
fn url_rejects_other_hosts_and_shapes() {
    assert!(!is_valid_repo_url("https://example.com/user/repo"));
    assert!(!is_valid_repo_url("http://github.com/user/repo"));
    assert!(!is_valid_repo_url("https://github.com/user"));
    assert!(!is_valid_repo_url("https://github.com/user/re po"));
}

#[test]
fn date_shape_is_strict() {
    assert!(is_date_shape("2025-01-01"));
    assert!(is_date_shape("0000-99-99"));
    assert!(!is_date_shape("2025-1-1"));
    assert!(!is_date_shape("2025/01/01"));
    assert!(!is_date_shape("2025-01-01 "));
    assert!(!is_date_shape(""));
}

#[test]
fn resolve_keeps_valid_urls() {
    let r = resolve_repo_url("https://github.com/user/repo.git");
    assert_eq!(r, Ok("https://github.com/user/repo.git".to_string()));
}

#[test]
fn resolve_expands_slugs() {
    let r = resolve_repo_url("user/repo");
    assert_eq!(r, Ok("https://github.com/user/repo.git".to_string()));
}

#[test]
fn resolve_strips_colon_prefix() {
    let r = resolve_repo_url("github:user/repo");
    assert_eq!(r, Ok("https://github.com/user/repo.git".to_string()));
}

#[test]
fn resolve_rejects_bad_url() {
    let r = resolve_repo_url("https://example.com/user/repo");
    assert_eq!(r, Err(RepoRefError::InvalidUrl));
}

#[test]
fn resolve_rejects_bad_slug() {
    let r = resolve_repo_url("not a slug");
    assert_eq!(r, Err(RepoRefError::InvalidSlug));
    let r2 = resolve_repo_url("a/b; rm -rf /");
    assert_eq!(r2, Err(RepoRefError::InvalidSlug));
}
