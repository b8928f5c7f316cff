//! The pipeline around a single repository reference: parse it, choose the
//! branch, canonicalize the host, build the archive URL, and plan where the
//! fetched archive goes on disk.

use vstd::prelude::*;
use vstd::string::*;

use crate::error::GitError;
use crate::reference::{
    handle_git_extenstion, lemma_find_scheme_sep, lemma_parse_fields_wellformed, scheme_sep_at,
    spec_parse, spec_parse_path, spec_parse_triple, str_find_scheme_sep, strip_git_suffix, RepoRef,
};
use crate::text::{
    drop_empty_segments, has_prefix, has_suffix, lemma_find_char, nonempty_of, split_on,
    str_eq, str_find_char, str_has_prefix, str_has_suffix, str_split,
};

verus! {

/// A resolved request: the archive URL together with the repository and
/// branch names that the materialization step reuses.
#[derive(Debug, Clone)]
pub struct Git {
    pub git_zip_url: String,
    pub repo_name: String,
    pub branch_name: String,
}

/// The codeload URL that GitHub serves branch archives from.
pub open spec fn spec_github_url(user: Seq<char>, repo: Seq<char>, branch: Seq<char>) -> Seq<
    char,
> {
    "https://codeload.github.com/"@ + user + "/"@ + repo + "/zip/refs/heads/"@ + branch
}

/// The archive URL of a GitLab instance, hosted or self-hosted.
pub open spec fn spec_gitlab_url(
    host: Seq<char>,
    user: Seq<char>,
    repo: Seq<char>,
    branch: Seq<char>,
) -> Seq<char> {
    "https://"@ + host + "/"@ + user + "/"@ + repo + "/-/archive/"@ + branch + "/"@ + repo + "-"@
        + branch + ".zip"@
}

/// Hosts are dispatched two ways: a host that begins with `github` gets the
/// codeload template, every other host the GitLab archive template.
pub open spec fn spec_build_url(
    host: Seq<char>,
    user: Seq<char>,
    repo: Seq<char>,
    branch: Seq<char>,
) -> Seq<char> {
    if has_prefix(host, "github"@) {
        spec_github_url(user, repo, branch)
    } else {
        spec_gitlab_url(host, user, repo, branch)
    }
}

/// The branch used when the caller names none: `main` on GitHub-family
/// hosts, `master` everywhere else.
pub open spec fn spec_default_branch(host: Seq<char>) -> Seq<char> {
    if has_prefix(host, "github"@) {
        "main"@
    } else {
        "master"@
    }
}

/// The bare alias `gitlab` stands for `gitlab.com`; every other host string
/// passes through unchanged.
pub open spec fn spec_canonical_host(host: Seq<char>) -> Seq<char> {
    if host == "gitlab"@ {
        "gitlab.com"@
    } else {
        host
    }
}

/// The characters of an optional name, when one was given.
pub open spec fn opt_view(o: Option<&String>) -> Option<Seq<char>> {
    match o {
        Some(s) => Some(s@),
        None => None,
    }
}

/// What resolving a reference yields: the archive URL, the repository name
/// and the branch name, or the error that parsing raised. The branch
/// default is chosen from the host as it was written, before the `gitlab`
/// alias is expanded.
pub open spec fn spec_resolve(url: Seq<char>, branch: Option<Seq<char>>) -> Result<
    (Seq<char>, Seq<char>, Seq<char>),
    GitError,
> {
    match spec_parse(url) {
        Err(e) => Err(e),
        Ok(t) => {
            let b = match branch {
                Some(b) => b,
                None => spec_default_branch(t.0),
            };
            Ok((spec_build_url(spec_canonical_host(t.0), t.1, t.2, b), t.2, b))
        },
    }
}

/// Accepts exactly the status code 200; anything else means the repository
/// or branch is not available at the built URL.
pub fn check_url_availability(response_code: u32) -> (r: Result<(), GitError>)
    ensures
        r == if response_code == 200 {
            Ok::<(), GitError>(())
        } else {
            Err::<(), GitError>(GitError::RemoteUnavailable)
        },
{
    if response_code == 200 {
        Ok(())
    } else {
        Err(GitError::RemoteUnavailable)
    }
}

/// Appends `.zip` to a file name that does not already end with it.
pub fn handle_zip_extension(file_name: &str) -> (r: String)
    ensures
        r@ == spec_zip_file_name(file_name@),
{
    if str_has_suffix(file_name, ".zip") {
        file_name.to_owned()
    } else {
        let mut named = file_name.to_owned();
        named.append(".zip");
        named
    }
}

/// A file name as the save step writes it: unchanged when it already ends
/// with `.zip`, with `.zip` appended otherwise.
pub open spec fn spec_zip_file_name(f: Seq<char>) -> Seq<char> {
    if has_suffix(f, ".zip"@) {
        f
    } else {
        f + ".zip"@
    }
}

/// The file that save mode writes: the caller's name, or `{branch}.zip`
/// when none was given, always carrying the `.zip` suffix.
pub open spec fn spec_save_name(branch: Seq<char>, name: Option<Seq<char>>) -> Seq<char> {
    match name {
        Some(n) => spec_zip_file_name(n),
        None => branch + ".zip"@,
    }
}

/// The directory that extract mode fills: the caller's name, or
/// `{repo}_{branch}` when none was given.
pub open spec fn spec_dest_dir(repo: Seq<char>, branch: Seq<char>, name: Option<Seq<char>>) -> Seq<
    char,
> {
    match name {
        Some(n) => n,
        None => repo + "_"@ + branch,
    }
}

/// Where the archive's own single top-level directory sits after
/// unpacking into `dest`: `{dest}/{repo}-{branch}`.
pub open spec fn spec_inner_dir(dest: Seq<char>, repo: Seq<char>, branch: Seq<char>) -> Seq<char> {
    dest + "/"@ + repo + "-"@ + branch
}

/// The directory surgery of one extraction, fixed before any filesystem
/// work starts: unpack into `dest_dir`, move `inner_dir` to `scratch_dir`,
/// remove `dest_dir`, rename `scratch_dir` to `dest_dir`.
#[derive(Debug, Clone)]
pub struct ExtractPlan {
    pub dest_dir: String,
    pub inner_dir: String,
    pub scratch_dir: String,
}

impl Git {
    /// Parses a reference string into its host, user and repository names,
    /// exactly as the three-grammar rule of `spec_parse` lays them out. A
    /// successful parse always yields three non-empty names, the
    /// repository's without a `.git` suffix.
    pub fn deserialize_input_url(url: &str) -> (r: Result<RepoRef, GitError>)
        ensures
            match r {
                Ok(rr) => spec_parse(url@) == Ok::<_, GitError>(
                    (rr.host_name@, rr.user_name@, rr.repo_name@),
                ),
                Err(e) => spec_parse(url@) == Err::<(Seq<char>, Seq<char>, Seq<char>), _>(e),
            },
            r matches Ok(rr) ==> rr.host_name@.len() > 0 && rr.user_name@.len() > 0
                && rr.repo_name@.len() > 0 && !has_suffix(rr.repo_name@, ".git"@),
    {
        proof {
            lemma_parse_fields_wellformed(url@);
        }
        if str_has_prefix(url, "http") {
            match str_find_scheme_sep(url) {
                None => Err(GitError::MalformedReference),
                Some(i) => {
                    let n = url.unicode_len();
                    proof {
                        lemma_find_scheme_sep(url@);
                        assert(scheme_sep_at(url@, i as int));
                    }
                    let tail = url.substring_char(i + 3, n);
                    proof {
                        assert(tail@ =~= url@.skip(i + 3));
                    }
                    // The original scheme split reads only the text between
                    // the first `://` and the next one.
                    match str_find_scheme_sep(tail) {
                        None => Self::parse_path(tail),
                        Some(j) => {
                            proof {
                                lemma_find_scheme_sep(tail@);
                                assert(scheme_sep_at(tail@, j as int));
                            }
                            let rest = tail.substring_char(0, j);
                            proof {
                                assert(rest@ =~= tail@.take(j as int));
                            }
                            Self::parse_path(rest)
                        },
                    }
                },
            }
        } else {
            let colon = str_find_char(url, ':');
            proof {
                lemma_find_char(url@, ':');
            }
            match colon {
                None => Self::parse_path(url),
                Some(_) => Self::parse_triple(url),
            }
        }
    }

    /// The slash-separated form shared by the full-URL and scheme-less
    /// grammars.
    fn parse_path(s: &str) -> (r: Result<RepoRef, GitError>)
        ensures
            match r {
                Ok(rr) => spec_parse_path(s@) == Ok::<_, GitError>(
                    (rr.host_name@, rr.user_name@, rr.repo_name@),
                ),
                Err(e) => spec_parse_path(s@) == Err::<(Seq<char>, Seq<char>, Seq<char>), _>(e),
            },
    {
        let raw = str_split(s, '/');
        let segs = drop_empty_segments(&raw);
        proof {
            assert(segs.deep_view() == nonempty_of(split_on(s@, '/')));
            assert(segs.deep_view().len() == segs@.len());
        }
        if segs.len() != 3 {
            return Err(GitError::MalformedReference);
        }
        let repo = handle_git_extenstion(segs[2].as_str());
        proof {
            assert(segs@[2]@ == segs.deep_view()[2]);
            assert(repo@ == strip_git_suffix(segs.deep_view()[2]));
        }
        if repo.unicode_len() == 0 {
            return Err(GitError::EmptyField);
        }
        let repo_name = repo.to_owned();
        let host_name = segs[0].clone();
        let user_name = segs[1].clone();
        proof {
            assert(segs@[0]@ == segs.deep_view()[0]);
            assert(segs@[1]@ == segs.deep_view()[1]);
        }
        Ok(RepoRef { host_name, user_name, repo_name })
    }

    /// The `host:user:repo` grammar.
    fn parse_triple(s: &str) -> (r: Result<RepoRef, GitError>)
        ensures
            match r {
                Ok(rr) => spec_parse_triple(s@) == Ok::<_, GitError>(
                    (rr.host_name@, rr.user_name@, rr.repo_name@),
                ),
                Err(e) => spec_parse_triple(s@) == Err::<(Seq<char>, Seq<char>, Seq<char>), _>(e),
            },
    {
        let segs = str_split(s, ':');
        proof {
            assert(segs.deep_view().len() == segs@.len());
        }
        if segs.len() != 3 {
            return Err(GitError::MalformedReference);
        }
        proof {
            assert(segs@[0]@ == segs.deep_view()[0]);
            assert(segs@[1]@ == segs.deep_view()[1]);
            assert(segs@[2]@ == segs.deep_view()[2]);
        }
        if segs[0].as_str().unicode_len() == 0 || segs[1].as_str().unicode_len() == 0
            || segs[2].as_str().unicode_len() == 0 {
            return Err(GitError::EmptyField);
        }
        let repo = handle_git_extenstion(segs[2].as_str());
        proof {
            assert(repo@ == strip_git_suffix(segs.deep_view()[2]));
        }
        if repo.unicode_len() == 0 {
            return Err(GitError::EmptyField);
        }
        let repo_name = repo.to_owned();
        let host_name = segs[0].clone();
        let user_name = segs[1].clone();
        Ok(RepoRef { host_name, user_name, repo_name })
    }

    /// Builds the codeload URL that GitHub serves branch archives from.
    pub fn build_github_url(user_name: &str, repo_name: &str, branch_name: &str) -> (r: String)
        ensures
            r@ == spec_github_url(user_name@, repo_name@, branch_name@),
    {
        let mut url = "https://codeload.github.com/".to_owned();
        url.append(user_name);
        url.append("/");
        url.append(repo_name);
        url.append("/zip/refs/heads/");
        url.append(branch_name);
        proof {
            assert(url@ =~= spec_github_url(user_name@, repo_name@, branch_name@));
        }
        url
    }

    /// Builds the archive URL of a GitLab instance, hosted or self-hosted.
    pub fn build_gitlab_url(
        host_name: &str,
        user_name: &str,
        repo_name: &str,
        branch_name: &str,
    ) -> (r: String)
        ensures
            r@ == spec_gitlab_url(host_name@, user_name@, repo_name@, branch_name@),
    {
        let mut url = "https://".to_owned();
        url.append(host_name);
        url.append("/");
        url.append(user_name);
        url.append("/");
        url.append(repo_name);
        url.append("/-/archive/");
        url.append(branch_name);
        url.append("/");
        url.append(repo_name);
        url.append("-");
        url.append(branch_name);
        url.append(".zip");
        proof {
            assert(url@ =~= spec_gitlab_url(host_name@, user_name@, repo_name@, branch_name@));
        }
        url
    }

    /// Builds the archive URL for a host: the codeload template when the
    /// host begins with `github`, the GitLab archive template otherwise.
    pub fn build_url(
        host_name: &str,
        user_name: &str,
        repo_name: &str,
        branch_name: &str,
    ) -> (r: String)
        ensures
            r@ == spec_build_url(host_name@, user_name@, repo_name@, branch_name@),
    {
        if str_has_prefix(host_name, "github") {
            Self::build_github_url(user_name, repo_name, branch_name)
        } else {
            Self::build_gitlab_url(host_name, user_name, repo_name, branch_name)
        }
    }

    /// Expands the bare alias `gitlab` to `gitlab.com`; any other host
    /// passes through unchanged.
    pub fn handle_hostname(host_name: &str) -> (r: &str)
        ensures
            r@ == spec_canonical_host(host_name@),
    {
        if str_eq(host_name, "gitlab") {
            "gitlab.com"
        } else {
            host_name
        }
    }

    /// Resolves a reference string and an optional branch override into the
    /// archive URL, keeping the repository and branch names beside it.
    pub fn new(url: &str, optional_branch_name: Option<&String>) -> (r: Result<Git, GitError>)
        ensures
            match r {
                Ok(g) => spec_resolve(url@, opt_view(optional_branch_name)) == Ok::<_, GitError>(
                    (g.git_zip_url@, g.repo_name@, g.branch_name@),
                ),
                Err(e) => spec_resolve(url@, opt_view(optional_branch_name)) == Err::<
                    (Seq<char>, Seq<char>, Seq<char>),
                    _,
                >(e),
            },
    {
        let rr = match Self::deserialize_input_url(url) {
            Ok(rr) => rr,
            Err(e) => {
                return Err(e);
            },
        };
        let branch_name: String = match optional_branch_name {
            Some(branch) => (*branch).clone(),
            None => {
                if str_has_prefix(rr.host_name.as_str(), "github") {
                    "main".to_owned()
                } else {
                    "master".to_owned()
                }
            },
        };
        let host_name = Self::handle_hostname(rr.host_name.as_str());
        let git_zip_url = Self::build_url(
            host_name,
            rr.user_name.as_str(),
            rr.repo_name.as_str(),
            branch_name.as_str(),
        );
        Ok(Git { git_zip_url, repo_name: rr.repo_name, branch_name })
    }

    /// The file that save mode writes this archive to: the caller's name
    /// with `.zip` appended where it is missing, or `{branch}.zip`.
    pub fn save_file_name(&self, optional_file_name: Option<&String>) -> (r: String)
        ensures
            r@ == spec_save_name(self.branch_name@, opt_view(optional_file_name)),
    {
        match optional_file_name {
            Some(filename) => handle_zip_extension(filename.as_str()),
            None => {
                let mut named = self.branch_name.clone();
                named.append(".zip");
                named
            },
        }
    }

    /// The directory surgery that re-roots this archive's single top-level
    /// directory onto the caller's chosen name.
    pub fn extract_plan(&self, optional_file_name: Option<&String>) -> (p: ExtractPlan)
        ensures
            p.dest_dir@ == spec_dest_dir(
                self.repo_name@,
                self.branch_name@,
                opt_view(optional_file_name),
            ),
            p.inner_dir@ == spec_inner_dir(p.dest_dir@, self.repo_name@, self.branch_name@),
            p.scratch_dir@ == "tmp"@,
    {
        let dest_dir: String = match optional_file_name {
            Some(filename) => filename.clone(),
            None => {
                let mut named = self.repo_name.clone();
                named.append("_");
                named.append(self.branch_name.as_str());
                proof {
                    assert(named@ =~= self.repo_name@ + "_"@ + self.branch_name@);
                }
                named
            },
        };
        let mut inner_dir = dest_dir.clone();
        inner_dir.append("/");
        inner_dir.append(self.repo_name.as_str());
        inner_dir.append("-");
        inner_dir.append(self.branch_name.as_str());
        proof {
            assert(inner_dir@ =~= spec_inner_dir(dest_dir@, self.repo_name@, self.branch_name@));
        }
        let scratch_dir = "tmp".to_owned();
        ExtractPlan { dest_dir, inner_dir, scratch_dir }
    }
}

} // verus!
