use hero::config::{split_repository, resolve_config, ConfigError};
use hero::client::{check_header_value, header_pairs, runs_url, jobs_url};

#[test]
fn splits_owner_and_repo() {
    let r = split_repository("octo-org/hello-world").unwrap();
    assert_eq!(r.0, "octo-org");
    assert_eq!(r.1, "hello-world");
}

#[test]
fn rejects_repo_without_separator() {
    assert_eq!(split_repository("octocat"), Err(ConfigError::RepositoryFormat));
    assert_eq!(split_repository(""), Err(ConfigError::RepositoryFormat));
}

#[test]
fn rejects_repo_with_two_separators() {
    assert_eq!(split_repository("a/b/c"), Err(ConfigError::RepositoryFormat));
    assert_eq!(split_repository("//"), Err(ConfigError::RepositoryFormat));
}

#[test]
fn splits_lone_separator_into_empty_parts() {
    let r = split_repository("/").unwrap();
    assert_eq!(r.0, "");
    assert_eq!(r.1, "");
}

#[test]
fn resolves_full_configuration() {
    let c = resolve_config("octo/hello", "check.yaml", Some(String::from("tok123"))).unwrap();
    assert_eq!(c.owner, "octo");
    assert_eq!(c.repository, "hello");
    assert_eq!(c.workflow, "check.yaml");
    assert_eq!(c.token, "tok123");
}

#[test]
fn missing_token_is_fatal() {
    let r = resolve_config("octo/hello", "check.yaml", None);
    assert_eq!(r.err().unwrap(), ConfigError::TokenMissing);
}

#[test]
fn empty_token_is_fatal() {
    let r = resolve_config("octo/hello", "check.yaml", Some(String::new()));
    assert_eq!(r.err().unwrap(), ConfigError::TokenEmpty);
}

#[test]
fn bad_repo_reported_before_token() {
    let r = resolve_config("no-separator", "check.yaml", None);
    assert_eq!(r.err().unwrap(), ConfigError::RepositoryFormat);
}

#[test]
fn header_values_reject_control_characters() {
    assert!(check_header_value("Bearer abc"));
    assert!(check_header_value("tab\tis fine"));
    assert!(!check_header_value("line\nbreak"));
    assert!(!check_header_value("carriage\rreturn"));
}

#[test]
fn builds_the_four_fixed_headers() {
    let c = resolve_config("octo/hello", "check.yaml", Some(String::from("tok123"))).unwrap();
    let hs = header_pairs(&c).unwrap();
    assert_eq!(hs.len(), 4);
    assert_eq!(hs[0].0, "Authorization");
    assert_eq!(hs[0].1, "Bearer tok123");
    assert_eq!(hs[1].0, "Accept");
    assert_eq!(hs[1].1, "application/vnd.github+json");
    assert_eq!(hs[2].0, "User-Agent");
    assert_eq!(hs[2].1, "action-hero/v0.1.0");
    assert_eq!(hs[3].0, "X-GitHub-Api-Version");
    assert_eq!(hs[3].1, "2022-11-28");
}

#[test]
fn rejects_token_that_cannot_be_a_header() {
    let c = resolve_config("octo/hello", "check.yaml", Some(String::from("bad\ntoken"))).unwrap();
    assert_eq!(header_pairs(&c).err().unwrap(), ConfigError::TokenInvalid);
}

#[test]
fn builds_the_runs_listing_url() {
    let c = resolve_config("octo/hello", "check.yaml", Some(String::from("t"))).unwrap();
    assert_eq!(
        runs_url(&c),
        "https://api.github.com/repos/octo/hello/actions/workflows/check.yaml/runs?per_page=10&page=1"
    );
}

#[test]
fn builds_the_jobs_url() {
    let c = resolve_config("octo/hello", "check.yaml", Some(String::from("t"))).unwrap();
    assert_eq!(
        jobs_url(&c, "8675309"),
        "https://api.github.com/repos/octo/hello/actions/runs/8675309/jobs"
    );
}
