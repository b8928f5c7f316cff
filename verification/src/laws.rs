//! The laws of the resolver, stated over the parsing and URL-building
//! specs and proved once and for all.

use vstd::prelude::*;

use crate::error::GitError;
use crate::git::{
    spec_build_url, spec_canonical_host, spec_github_url, spec_gitlab_url, spec_resolve,
};
use crate::reference::{
    lemma_find_scheme_sep_is, lemma_find_scheme_sep_none, scheme_sep_at, spec_parse,
    spec_parse_path, spec_parse_triple, spec_parse_url, strip_git_suffix,
};
use crate::text::{
    has_prefix, has_suffix, lemma_find_char_is, lemma_nonempty_of_id, lemma_split_on_three,
    nonempty_of, split_on,
};

verus! {

/// A host, user and repository joined by slashes parse back to exactly
/// those segments, with a trailing `.git` stripped from the repository;
/// a repository that the strip leaves blank is an empty field.
proof fn lemma_parse_slash_path(host: Seq<char>, user: Seq<char>, repo: Seq<char>)
    requires
        host.len() > 0,
        user.len() > 0,
        repo.len() > 0,
        !host.contains('/'),
        !user.contains('/'),
        !repo.contains('/'),
    ensures
        spec_parse_path(host + "/"@ + user + "/"@ + repo) == if strip_git_suffix(repo).len()
            == 0 {
            Err::<(Seq<char>, Seq<char>, Seq<char>), GitError>(GitError::EmptyField)
        } else {
            Ok::<(Seq<char>, Seq<char>, Seq<char>), GitError>((host, user, strip_git_suffix(repo)))
        },
{
    reveal_strlit("/");
    assert("/"@ =~= seq!['/']);
    let s = host + "/"@ + user + "/"@ + repo;
    assert(s =~= host + seq!['/'] + user + seq!['/'] + repo);
    lemma_split_on_three(host, user, repo, '/');
    assert(split_on(s, '/') == seq![host, user, repo]);
    assert(seq![host, user, repo][0] == host);
    assert(seq![host, user, repo][1] == user);
    assert(seq![host, user, repo][2] == repo);
    lemma_nonempty_of_id(seq![host, user, repo]);
    assert(nonempty_of(split_on(s, '/')) == seq![host, user, repo]);
}

/// A slash-joined triple of non-empty, slash-free segments holds no `://`
/// anywhere: its only slashes are the two isolated separators.
proof fn lemma_no_scheme_sep_in_slash_path(host: Seq<char>, user: Seq<char>, repo: Seq<char>)
    requires
        host.len() > 0,
        user.len() > 0,
        repo.len() > 0,
        !host.contains('/'),
        !user.contains('/'),
        !repo.contains('/'),
    ensures
        forall|j: int| !#[trigger] scheme_sep_at(host + "/"@ + user + "/"@ + repo, j),
{
    reveal_strlit("/");
    let s = host + "/"@ + user + "/"@ + repo;
    let hl = host.len() as int;
    let ul = user.len() as int;
    assert forall|k: int| 0 <= k < s.len() && s[k] == '/' implies k == hl || k == hl + ul + 1 by {
        if k < hl {
            assert(s[k] == host[k]);
            assert(host.contains('/'));
        } else if hl < k < hl + 1 + ul {
            assert(s[k] == user[k - hl - 1]);
            assert(user.contains('/'));
        } else if k > hl + 1 + ul {
            assert(s[k] == repo[k - hl - ul - 2]);
            assert(repo.contains('/'));
        }
    }
    assert forall|j: int| !scheme_sep_at(s, j) by {
        if scheme_sep_at(s, j) {
            assert(s[j + 1] == '/' && s[j + 2] == '/');
            assert(j + 1 == hl || j + 1 == hl + ul + 1);
            assert(j + 2 == hl || j + 2 == hl + ul + 1);
        }
    }
}

/// The path of an `https://` URL whose remainder holds no further `://`
/// is the whole remainder, read as a slash-separated path.
proof fn lemma_parse_https(rest: Seq<char>)
    requires
        forall|j: int| !scheme_sep_at(rest, j),
    ensures
        spec_parse("https://"@ + rest) == spec_parse_path(rest),
{
    reveal_strlit("https://");
    reveal_strlit("http");
    let s = "https://"@ + rest;
    assert(has_prefix(s, "http"@)) by {
        assert(s.take(4) =~= "http"@);
    }
    assert(scheme_sep_at(s, 5)) by {
        assert(s[5] == ':' && s[6] == '/' && s[7] == '/');
    }
    assert(!scheme_sep_at(s, 0)) by {
        assert(s[0] == 'h');
    }
    assert(!scheme_sep_at(s, 1)) by {
        assert(s[1] == 't');
    }
    assert(!scheme_sep_at(s, 2)) by {
        assert(s[2] == 't');
    }
    assert(!scheme_sep_at(s, 3)) by {
        assert(s[3] == 'p');
    }
    assert(!scheme_sep_at(s, 4)) by {
        assert(s[4] == 's');
    }
    assert(forall|j: int| 0 <= j < 5 ==> !scheme_sep_at(s, j)) by {
        assert(!scheme_sep_at(s, 0) && !scheme_sep_at(s, 1) && !scheme_sep_at(s, 2)
            && !scheme_sep_at(s, 3) && !scheme_sep_at(s, 4));
    }
    lemma_find_scheme_sep_is(s, 5);
    assert(s.skip(8) =~= rest);
    lemma_find_scheme_sep_none(rest);
    assert(spec_parse_url(s) == spec_parse_path(rest));
}

/// A trailing `.git` on the repository of a full URL is immaterial: with
/// or without it, parsing yields the same reference. The strip cuts at
/// the repository's first `.`, so a repository name that itself holds a
/// `.` stands outside this law.
pub proof fn lemma_git_suffix_immaterial(host: Seq<char>, user: Seq<char>, repo: Seq<char>)
    requires
        host.len() > 0,
        user.len() > 0,
        repo.len() > 0,
        !host.contains('/'),
        !user.contains('/'),
        !repo.contains('/'),
        !repo.contains('.'),
    ensures
        spec_parse("https://"@ + host + "/"@ + user + "/"@ + repo) == Ok::<_, GitError>(
            (host, user, repo),
        ),
        spec_parse("https://"@ + host + "/"@ + user + "/"@ + repo + ".git"@) == Ok::<_, GitError>(
            (host, user, repo),
        ),
{
    reveal_strlit(".git");
    assert(".git"@.len() == 4);
    // The plain form: `repo` has no `.`, so it cannot end in `.git` and the
    // strip leaves it unchanged.
    assert(strip_git_suffix(repo) == repo) by {
        if has_suffix(repo, ".git"@) {
            let n = repo.len() as int;
            assert(repo.skip(n - 4)[0] == '.');
            assert(repo[n - 4] == '.');
            assert(repo.contains('.'));
        }
    }
    let rest = host + "/"@ + user + "/"@ + repo;
    lemma_no_scheme_sep_in_slash_path(host, user, repo);
    lemma_parse_https(rest);
    lemma_parse_slash_path(host, user, repo);
    assert("https://"@ + host + "/"@ + user + "/"@ + repo =~= "https://"@ + rest);
    // The `.git` form: the suffix is there, and the first `.` of
    // `repo ++ .git` is the one the suffix brought.
    let repo2 = repo + ".git"@;
    assert(has_suffix(repo2, ".git"@)) by {
        assert(repo2.skip(repo.len() as int) =~= ".git"@);
    }
    assert(!repo2.contains('/')) by {
        if repo2.contains('/') {
            let i = choose|i: int| 0 <= i < repo2.len() && repo2[i] == '/';
            if i < repo.len() {
                assert(repo.contains('/'));
            } else {
                let k = i - repo.len();
                assert(repo2[i] == ".git"@[k]);
                if k == 0 {
                    assert(".git"@[0] == '.');
                } else if k == 1 {
                    assert(".git"@[1] == 'g');
                } else if k == 2 {
                    assert(".git"@[2] == 'i');
                } else {
                    assert(".git"@[3] == 't');
                }
            }
        }
    }
    assert(strip_git_suffix(repo2) == repo) by {
        assert(repo2[repo.len() as int] == '.');
        assert(forall|j: int| 0 <= j < repo.len() ==> repo2[j] == repo[j]);
        assert forall|j: int| 0 <= j < repo.len() implies repo2[j] != '.' by {
            if repo[j] == '.' {
                assert(repo.contains('.'));
            }
        }
        lemma_find_char_is(repo2, '.', repo.len() as int);
        assert(repo2.take(repo.len() as int) =~= repo);
    }
    let rest2 = host + "/"@ + user + "/"@ + repo2;
    lemma_no_scheme_sep_in_slash_path(host, user, repo2);
    lemma_parse_https(rest2);
    lemma_parse_slash_path(host, user, repo2);
    assert("https://"@ + host + "/"@ + user + "/"@ + repo + ".git"@ =~= "https://"@ + rest2);
}

/// The three grammars that can describe one repository agree: the full
/// URL, the scheme-less path and the `host:user:repo` triple parse to the
/// same reference -- the segments, with a trailing `.git` stripped from
/// the repository -- and resolve to the same archive URL, whatever the
/// branch choice.
pub proof fn lemma_grammars_agree(
    host: Seq<char>,
    user: Seq<char>,
    repo: Seq<char>,
    branch: Option<Seq<char>>,
)
    requires
        host.len() > 0,
        user.len() > 0,
        repo.len() > 0,
        !host.contains('/'),
        !user.contains('/'),
        !repo.contains('/'),
        !host.contains(':'),
        !user.contains(':'),
        !repo.contains(':'),
        !has_prefix(host, "http"@),
    ensures
        spec_parse("https://"@ + host + "/"@ + user + "/"@ + repo) == spec_parse(
            host + "/"@ + user + "/"@ + repo,
        ),
        spec_parse(host + ":"@ + user + ":"@ + repo) == spec_parse(
            host + "/"@ + user + "/"@ + repo,
        ),
        strip_git_suffix(repo).len() > 0 ==> spec_parse(host + "/"@ + user + "/"@ + repo)
            == Ok::<_, GitError>((host, user, strip_git_suffix(repo))),
        spec_resolve("https://"@ + host + "/"@ + user + "/"@ + repo, branch) == spec_resolve(
            host + "/"@ + user + "/"@ + repo,
            branch,
        ),
        spec_resolve(host + ":"@ + user + ":"@ + repo, branch) == spec_resolve(
            host + "/"@ + user + "/"@ + repo,
            branch,
        ),
{
    reveal_strlit("http");
    reveal_strlit("https://");
    reveal_strlit("/");
    reveal_strlit(":");
    assert("/"@ =~= seq!['/']);
    assert(":"@ =~= seq![':']);
    let bare = host + "/"@ + user + "/"@ + repo;
    let triple = host + ":"@ + user + ":"@ + repo;
    lemma_parse_slash_path(host, user, repo);
    // The full URL.
    lemma_no_scheme_sep_in_slash_path(host, user, repo);
    lemma_parse_https(bare);
    assert("https://"@ + host + "/"@ + user + "/"@ + repo =~= "https://"@ + bare);
    // The scheme-less path: it neither begins with `http` nor holds a `:`.
    assert(!has_prefix(bare, "http"@)) by {
        if has_prefix(bare, "http"@) {
            if host.len() >= 4 {
                assert(host.take(4) =~= bare.take(4));
            } else {
                let k = host.len() as int;
                assert(bare[k] == '/');
                assert(bare.take(4)[k] == "http"@[k]);
                if k == 1 {
                    assert("http"@[1] == 't');
                } else if k == 2 {
                    assert("http"@[2] == 't');
                } else {
                    assert("http"@[3] == 'p');
                }
            }
        }
    }
    assert(!bare.contains(':')) by {
        if bare.contains(':') {
            let i = choose|i: int| 0 <= i < bare.len() && bare[i] == ':';
            let hl = host.len() as int;
            let ul = user.len() as int;
            if i < hl {
                assert(host.contains(':'));
            } else if i == hl {
                assert(bare[i] == '/');
            } else if i < hl + 1 + ul {
                assert(bare[i] == user[i - hl - 1]);
                assert(user.contains(':'));
            } else if i == hl + 1 + ul {
                assert(bare[i] == '/');
            } else {
                assert(bare[i] == repo[i - hl - ul - 2]);
                assert(repo.contains(':'));
            }
        }
    }
    assert(spec_parse(bare) == spec_parse_path(bare));
    // The triple: it holds a `:` and cannot begin with `http` either.
    let hl = host.len() as int;
    let ul = user.len() as int;
    assert(triple[hl] == ':');
    assert(triple.contains(':'));
    assert(!has_prefix(triple, "http"@)) by {
        if has_prefix(triple, "http"@) {
            if host.len() >= 4 {
                assert(host.take(4) =~= triple.take(4));
            } else {
                assert(triple.take(4)[hl] == "http"@[hl]);
                if hl == 1 {
                    assert("http"@[1] == 't');
                } else if hl == 2 {
                    assert("http"@[2] == 't');
                } else {
                    assert("http"@[3] == 'p');
                }
            }
        }
    }
    assert(triple =~= host + seq![':'] + user + seq![':'] + repo);
    lemma_split_on_three(host, user, repo, ':');
    assert(split_on(triple, ':') == seq![host, user, repo]);
    assert(seq![host, user, repo][0] == host);
    assert(seq![host, user, repo][1] == user);
    assert(seq![host, user, repo][2] == repo);
    assert(spec_parse_triple(triple) == spec_parse_path(bare));
}

/// The alias host `gitlab` resolves to `gitlab.com` in the built URL, and
/// every other host string passes through unchanged.
pub proof fn lemma_gitlab_alias(
    host: Seq<char>,
    user: Seq<char>,
    repo: Seq<char>,
    branch: Seq<char>,
)
    ensures
        spec_build_url(spec_canonical_host("gitlab"@), user, repo, branch) == spec_gitlab_url(
            "gitlab.com"@,
            user,
            repo,
            branch,
        ),
        host != "gitlab"@ ==> spec_canonical_host(host) == host,
{
    reveal_strlit("gitlab.com");
    reveal_strlit("github");
    assert(!has_prefix("gitlab.com"@, "github"@)) by {
        assert("github"@[3] == 'h');
        if has_prefix("gitlab.com"@, "github"@) {
            assert("gitlab.com"@.take(6)[3] == "gitlab.com"@[3]);
            assert("gitlab.com"@[3] == 'l');
        }
    }
}

/// Hosts are routed by the literal prefix `github`: such hosts get the
/// codeload template, all others the GitLab archive template.
pub proof fn lemma_host_dispatch(
    host: Seq<char>,
    user: Seq<char>,
    repo: Seq<char>,
    branch: Seq<char>,
)
    ensures
        has_prefix(host, "github"@) ==> spec_build_url(host, user, repo, branch)
            == spec_github_url(user, repo, branch),
        !has_prefix(host, "github"@) ==> spec_build_url(host, user, repo, branch)
            == spec_gitlab_url(host, user, repo, branch),
{
}

} // verus!
