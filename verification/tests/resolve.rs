use cgit::git::Git;

const GITHUB_URL: &str = "https://codeload.github.com/shadawck/gitcurl/zip/refs/heads/main";
const GITLAB_URL: &str =
    "https://gitlab.com/Fract/sample-project/-/archive/master/sample-project-master.zip";
const CUSTOM_GITLAB_URL: &str =
    "https://gitlab.kitware.com/utils/rust-gitlab/-/archive/master/rust-gitlab-master.zip";

#[test]
fn with_github_full_repo_url_when_deserialize_input_url_then_construct_valid_url() {
    let full_repo_url = "https://github.com/shadawck/gitcurl".to_string();
    let optional_branch_name = "main".to_string();
    let git = Git::new(&full_repo_url, Some(&optional_branch_name)).unwrap();

    assert_eq!(git.git_zip_url, GITHUB_URL)
}

#[test]
fn with_github_full_repo_url_and_git_extension_when_deserialize_input_url_then_construct_valid_url(
) {
    let full_repo_url = "https://github.com/shadawck/gitcurl.git".to_string();
    let optional_branch_name = "main".to_string();
    let git = Git::new(&full_repo_url, Some(&optional_branch_name)).unwrap();

    assert_eq!(git.git_zip_url, GITHUB_URL)
}

#[test]
fn with_github_repo_url_without_http_scheme_when_deserialize_input_url_then_construct_valid_url() {
    let url_without_scheme = "github.com/shadawck/gitcurl".to_string();
    let optional_branch_name = "main".to_string();
    let git = Git::new(&url_without_scheme, Some(&optional_branch_name)).unwrap();

    assert_eq!(git.git_zip_url, GITHUB_URL)
}

#[test]
fn with_github_repo_data_when_deserialize_input_url_then_construct_valid_url() {
    let repo_data = "github:shadawck:gitcurl".to_string();
    let git = Git::new(&repo_data, None).unwrap();

    assert_eq!(git.git_zip_url, GITHUB_URL)
}

#[test]
fn with_gitlab_full_repo_url_when_deserialize_input_url_then_construct_valid_url() {
    let full_repo_url = "https://gitlab.com/Fract/sample-project".to_string();
    let git = Git::new(&full_repo_url, None).unwrap();

    assert_eq!(git.git_zip_url, GITLAB_URL)
}

#[test]
fn with_gitlab_repo_url_without_http_scheme_when_deserialize_input_url_then_construct_valid_url() {
    let url_without_scheme = "gitlab.com/Fract/sample-project".to_string();
    let git = Git::new(&url_without_scheme, None).unwrap();

    assert_eq!(git.git_zip_url, GITLAB_URL)
}

#[test]
fn with_gitlab_repo_data_when_deserialize_input_url_then_construct_valid_url() {
    let repo_data = "gitlab:Fract:sample-project".to_string();
    let git = Git::new(&repo_data, None).unwrap();

    assert_eq!(git.git_zip_url, GITLAB_URL)
}

#[test]
fn with_on_premise_gitlab_full_repo_url_when_deserialize_input_url_then_construct_valid_url() {
    let full_repo_url = "https://gitlab.kitware.com/utils/rust-gitlab".to_string();
    let git = Git::new(&full_repo_url, None).unwrap();

    assert_eq!(git.git_zip_url, CUSTOM_GITLAB_URL)
}

#[test]
fn with_with_on_premise_gitlab_repo_url_without_http_scheme_when_deserialize_input_url_then_construct_valid_url(
) {
    let url_without_scheme = "gitlab.kitware.com/utils/rust-gitlab".to_string();
    let git = Git::new(&url_without_scheme, None).unwrap();

    assert_eq!(git.git_zip_url, CUSTOM_GITLAB_URL)
}

#[test]
fn with_with_on_premise_gitlab_repo_data_when_deserialize_input_url_then_construct_valid_url() {
    let repo_data = "gitlab.kitware.com:utils:rust-gitlab".to_string();
    let git = Git::new(&repo_data, None).unwrap();

    assert_eq!(git.git_zip_url, CUSTOM_GITLAB_URL)
}

#[test]
#[should_panic]
fn with_repo_url_without_user_name_when_deserialize_input_url_then_fail() {
    let repo_data = "https://github.com/gitcurl".to_string();
    Git::new(&repo_data, None).unwrap();
}

#[test]
#[should_panic]
fn with_repo_url_without_repo_name_when_deserialize_input_url_then_fail() {
    let repo_data = "https://github.com/shadawck".to_string();
    Git::new(&repo_data, None).unwrap();
}

#[test]
#[should_panic]
fn with_repo_url_without_host_when_deserialize_input_url_then_fail() {
    let repo_data = "https://shadawck/gitcurl".to_string();
    Git::new(&repo_data, None).unwrap();
}

#[test]
#[should_panic]
fn with_repo_data_without_user_name_when_deserialize_input_url_then_fail() {
    let repo_data = ":gitcurl".to_string();
    Git::new(&repo_data, None).unwrap();
}

#[test]
#[should_panic]
fn with_repo_data_without_repo_name_when_deserialize_input_url_then_fail() {
    let repo_data = "shadawck:".to_string();
    Git::new(&repo_data, None).unwrap();
}
