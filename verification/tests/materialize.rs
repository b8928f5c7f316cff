use cgit::archive::open_archive;
use cgit::error::GitError;
use cgit::git::{check_url_availability, handle_zip_extension, Git};

fn resolved() -> Git {
    Git::new("github:shadawck:gitcurl", None).unwrap()
}

#[test]
fn zip_extension_is_appended_only_when_missing() {
    assert_eq!(handle_zip_extension("archive"), "archive.zip");
    assert_eq!(handle_zip_extension("archive.zip"), "archive.zip");
    assert_eq!(handle_zip_extension(""), ".zip");
}

#[test]
fn save_name_defaults_to_branch_zip() {
    let git = resolved();
    assert_eq!(git.save_file_name(None), "main.zip");
}

#[test]
fn save_name_honours_the_caller_and_normalizes_the_suffix() {
    let git = resolved();
    let plain = "mycopy".to_string();
    assert_eq!(git.save_file_name(Some(&plain)), "mycopy.zip");
    let suffixed = "mycopy.zip".to_string();
    assert_eq!(git.save_file_name(Some(&suffixed)), "mycopy.zip");
}

#[test]
fn extract_plan_defaults_to_repo_underscore_branch() {
    let git = resolved();
    let plan = git.extract_plan(None);
    assert_eq!(plan.dest_dir, "gitcurl_main");
    assert_eq!(plan.inner_dir, "gitcurl_main/gitcurl-main");
    assert_eq!(plan.scratch_dir, "tmp");
}

#[test]
fn extract_plan_honours_the_caller_name() {
    let git = resolved();
    let name = "workdir".to_string();
    let plan = git.extract_plan(Some(&name));
    assert_eq!(plan.dest_dir, "workdir");
    assert_eq!(plan.inner_dir, "workdir/gitcurl-main");
    assert_eq!(plan.scratch_dir, "tmp");
}

#[test]
fn only_status_200_counts_as_available() {
    assert_eq!(check_url_availability(200), Ok(()));
    assert_eq!(check_url_availability(404), Err(GitError::RemoteUnavailable));
    assert_eq!(check_url_availability(301), Err(GitError::RemoteUnavailable));
    assert_eq!(check_url_availability(429), Err(GitError::RemoteUnavailable));
}

#[test]
fn an_empty_zip_archive_opens() {
    // The end-of-central-directory record of an archive with no entries.
    let mut data = vec![0x50u8, 0x4b, 0x05, 0x06];
    data.extend(std::iter::repeat(0u8).take(18));
    assert!(open_archive(data).is_ok());
}

#[test]
fn garbage_bytes_are_archive_corrupt() {
    let data = vec![0u8, 1, 2, 3, 4, 5, 6, 7];
    let err = open_archive(data).map(|_| ()).unwrap_err();
    assert_eq!(err, GitError::ArchiveCorrupt);
}

#[test]
fn every_error_carries_its_message() {
    assert_eq!(GitError::MalformedReference.message(), "Url is malformed.");
    assert_eq!(
        GitError::EmptyField.message(),
        "Can't get user_namename and repository name"
    );
    assert_eq!(GitError::UnreachableHost.message(), "Could not resolve host !");
    assert_eq!(
        GitError::RemoteUnavailable.message(),
        "This repo/branch doesn't exist or repo can't be fetched"
    );
    assert_eq!(
        GitError::ArchiveCorrupt.message(),
        "Archive is corrupt or not a zip file."
    );
    assert_eq!(GitError::IoError.message(), "Could not write the archive to disk.");
}
