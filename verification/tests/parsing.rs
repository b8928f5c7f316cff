use cgit::error::GitError;
use cgit::git::Git;
use cgit::reference::handle_git_extenstion;

#[test]
fn git_suffix_is_immaterial_to_parsing() {
    let plain = Git::deserialize_input_url("https://github.com/shadawck/gitcurl").unwrap();
    let suffixed = Git::deserialize_input_url("https://github.com/shadawck/gitcurl.git").unwrap();
    assert_eq!(plain.host_name, suffixed.host_name);
    assert_eq!(plain.user_name, suffixed.user_name);
    assert_eq!(plain.repo_name, suffixed.repo_name);
    assert_eq!(plain.repo_name, "gitcurl");
}

#[test]
fn all_three_grammars_build_the_same_url() {
    let branch = "master".to_string();
    let from_url = Git::new("https://gitlab.com/Fract/sample-project", Some(&branch)).unwrap();
    let from_path = Git::new("gitlab.com/Fract/sample-project", Some(&branch)).unwrap();
    let from_triple = Git::new("gitlab.com:Fract:sample-project", Some(&branch)).unwrap();
    assert_eq!(from_url.git_zip_url, from_path.git_zip_url);
    assert_eq!(from_triple.git_zip_url, from_path.git_zip_url);
}

#[test]
fn bare_gitlab_host_becomes_gitlab_dot_com() {
    assert_eq!(Git::handle_hostname("gitlab"), "gitlab.com");
    assert_eq!(Git::handle_hostname("gitlab.kitware.com"), "gitlab.kitware.com");
    assert_eq!(Git::handle_hostname("github.com"), "github.com");
}

#[test]
fn github_prefixed_hosts_use_codeload_and_others_the_archive_template() {
    assert_eq!(
        Git::build_url("github.com", "shadawck", "gitcurl", "main"),
        "https://codeload.github.com/shadawck/gitcurl/zip/refs/heads/main"
    );
    assert_eq!(
        Git::build_url("github.acme.org", "shadawck", "gitcurl", "main"),
        "https://codeload.github.com/shadawck/gitcurl/zip/refs/heads/main"
    );
    assert_eq!(
        Git::build_url("git.acme.org", "shadawck", "gitcurl", "main"),
        "https://git.acme.org/shadawck/gitcurl/-/archive/main/gitcurl-main.zip"
    );
}

#[test]
fn default_branch_is_main_on_github_and_master_elsewhere() {
    let github = Git::new("github:shadawck:gitcurl", None).unwrap();
    assert_eq!(github.branch_name, "main");
    let gitlab = Git::new("gitlab:Fract:sample-project", None).unwrap();
    assert_eq!(gitlab.branch_name, "master");
}

#[test]
fn branch_override_reaches_the_built_url() {
    let branch = "dev".to_string();
    let git = Git::new("github:shadawck:gitcurl", Some(&branch)).unwrap();
    assert_eq!(
        git.git_zip_url,
        "https://codeload.github.com/shadawck/gitcurl/zip/refs/heads/dev"
    );
    assert_eq!(git.branch_name, "dev");
}

#[test]
fn too_few_url_segments_are_malformed() {
    assert_eq!(
        Git::deserialize_input_url("https://github.com/onlyuser").unwrap_err(),
        GitError::MalformedReference
    );
    assert_eq!(
        Git::deserialize_input_url("https://github.com/a/b/c/d").unwrap_err(),
        GitError::MalformedReference
    );
    assert_eq!(
        Git::deserialize_input_url("").unwrap_err(),
        GitError::MalformedReference
    );
}

#[test]
fn http_prefix_without_scheme_separator_is_malformed() {
    assert_eq!(
        Git::deserialize_input_url("httpfoo/a/b").unwrap_err(),
        GitError::MalformedReference
    );
}

#[test]
fn too_few_triple_segments_are_malformed() {
    assert_eq!(
        Git::deserialize_input_url(":reponame").unwrap_err(),
        GitError::MalformedReference
    );
    assert_eq!(
        Git::deserialize_input_url("user:").unwrap_err(),
        GitError::MalformedReference
    );
    assert_eq!(
        Git::deserialize_input_url("a:b:c:d").unwrap_err(),
        GitError::MalformedReference
    );
}

#[test]
fn blank_triple_segments_are_empty_fields() {
    assert_eq!(
        Git::deserialize_input_url("host::repo").unwrap_err(),
        GitError::EmptyField
    );
    assert_eq!(
        Git::deserialize_input_url(":user:repo").unwrap_err(),
        GitError::EmptyField
    );
    assert_eq!(
        Git::deserialize_input_url("host:user:").unwrap_err(),
        GitError::EmptyField
    );
}

#[test]
fn repository_that_is_only_a_git_suffix_is_an_empty_field() {
    assert_eq!(
        Git::deserialize_input_url("https://github.com/shadawck/.git").unwrap_err(),
        GitError::EmptyField
    );
}

#[test]
fn doubled_and_trailing_slashes_are_filtered_before_counting() {
    let git = Git::deserialize_input_url("https://github.com//shadawck/gitcurl/").unwrap();
    assert_eq!(git.host_name, "github.com");
    assert_eq!(git.user_name, "shadawck");
    assert_eq!(git.repo_name, "gitcurl");
}

#[test]
fn git_suffix_is_immaterial_in_the_triple_grammar_too() {
    let plain = Git::deserialize_input_url("github:shadawck:gitcurl").unwrap();
    let suffixed = Git::deserialize_input_url("github:shadawck:gitcurl.git").unwrap();
    assert_eq!(plain.repo_name, suffixed.repo_name);
    assert_eq!(suffixed.repo_name, "gitcurl");

    let git = Git::new("github:shadawck:gitcurl.git", None).unwrap();
    assert_eq!(
        git.git_zip_url,
        "https://codeload.github.com/shadawck/gitcurl/zip/refs/heads/main"
    );
}

#[test]
fn triple_repository_that_is_only_a_git_suffix_is_an_empty_field() {
    assert_eq!(
        Git::deserialize_input_url("host:user:.git").unwrap_err(),
        GitError::EmptyField
    );
}

#[test]
fn url_path_ends_at_a_second_scheme_separator() {
    assert_eq!(
        Git::deserialize_input_url("http://a/b://c").unwrap_err(),
        GitError::MalformedReference
    );
    assert_eq!(
        Git::deserialize_input_url("https://gitcurl://x").unwrap_err(),
        GitError::MalformedReference
    );
}

#[test]
fn git_extension_is_stripped_at_the_first_dot() {
    assert_eq!(handle_git_extenstion("gitcurl.git"), "gitcurl");
    assert_eq!(handle_git_extenstion("gitcurl"), "gitcurl");
    assert_eq!(handle_git_extenstion("my.repo"), "my.repo");
    assert_eq!(handle_git_extenstion("my.repo.git"), "my");
}
