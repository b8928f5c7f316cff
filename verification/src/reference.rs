//! The reference parser: the three accepted input grammars and the
//! canonical `(host, user, repo)` triple they resolve to.
//!
//! A reference is read, in this fixed order, as
//! 1. a full URL `scheme://host/user/repo` when it begins with `http`;
//!    the text between the first `://` and the next one (or the end of
//!    the string) is split on `/`;
//! 2. a scheme-less path `host/user/repo` when it neither begins with
//!    `http` nor contains a `:`;
//! 3. a `host:user:repo` triple otherwise.
//!
//! For the slash-separated forms, blank segments (doubled or trailing
//! slashes) are dropped before counting and exactly three segments must
//! remain. For the triple, the string must split on `:` into exactly
//! three segments, each non-blank. In every grammar a trailing `.git` on
//! the repository segment is immaterial, and a repository name that is
//! blank once it is stripped is rejected.

use vstd::prelude::*;
use vstd::string::*;

use crate::error::GitError;
use crate::text::{
    find_char, has_prefix, has_suffix, lemma_find_char, nonempty_of, split_on, str_find_char,
    str_has_suffix,
};

verus! {

/// A parsed repository reference. After parsing, all three fields are
/// non-empty and the repository name carries no `.git` suffix.
#[derive(Debug, Clone)]
pub struct RepoRef {
    pub host_name: String,
    pub user_name: String,
    pub repo_name: String,
}

/// The characters `://` stand at index `i` of `s`.
pub open spec fn scheme_sep_at(s: Seq<char>, i: int) -> bool {
    &&& 0 <= i
    &&& i + 3 <= s.len()
    &&& s[i] == ':'
    &&& s[i + 1] == '/'
    &&& s[i + 2] == '/'
}

/// Index of the first `://` in `s`, or -1 when there is none.
pub open spec fn find_scheme_sep(s: Seq<char>) -> int
    decreases s.len(),
{
    if s.len() < 3 {
        -1
    } else if scheme_sep_at(s, 0) {
        0
    } else if find_scheme_sep(s.drop_first()) == -1 {
        -1
    } else {
        1 + find_scheme_sep(s.drop_first())
    }
}

/// What `find_scheme_sep` returns: -1 exactly when `://` does not occur,
/// and otherwise the index of its first occurrence.
pub proof fn lemma_find_scheme_sep(s: Seq<char>)
    ensures
        find_scheme_sep(s) == -1 <==> (forall|i: int| !scheme_sep_at(s, i)),
        find_scheme_sep(s) != -1 ==> scheme_sep_at(s, find_scheme_sep(s)),
        forall|j: int| 0 <= j < find_scheme_sep(s) ==> !scheme_sep_at(s, j),
    decreases s.len(),
{
    if s.len() < 3 {
        assert(forall|i: int| !scheme_sep_at(s, i));
    } else if scheme_sep_at(s, 0) {
    } else {
        let t = s.drop_first();
        lemma_find_scheme_sep(t);
        assert(forall|j: int| 1 <= j < s.len() ==> s[j] == t[j - 1]);
        assert forall|i: int| scheme_sep_at(s, i) implies i >= 1 && scheme_sep_at(t, i - 1) by {
            assert(!scheme_sep_at(s, 0));
        }
        assert forall|i: int| scheme_sep_at(t, i) implies scheme_sep_at(s, i + 1) by {
            assert(t[i] == s[i + 1] && t[i + 1] == s[i + 2] && t[i + 2] == s[i + 3]);
        }
        if find_scheme_sep(t) == -1 {
            assert forall|i: int| !scheme_sep_at(s, i) by {
                if scheme_sep_at(s, i) {
                    assert(scheme_sep_at(t, i - 1));
                }
            }
        } else {
            assert(scheme_sep_at(s, find_scheme_sep(t) + 1));
            assert forall|j: int| 0 <= j < find_scheme_sep(s) implies !scheme_sep_at(s, j) by {
                if j >= 1 && scheme_sep_at(s, j) {
                    assert(scheme_sep_at(t, j - 1));
                }
            }
        }
    }
}

/// When `://` first occurs at index `k`, `find_scheme_sep` returns `k`.
pub proof fn lemma_find_scheme_sep_is(s: Seq<char>, k: int)
    requires
        scheme_sep_at(s, k),
        forall|j: int| 0 <= j < k ==> !scheme_sep_at(s, j),
    ensures
        find_scheme_sep(s) == k,
{
    lemma_find_scheme_sep(s);
    let f = find_scheme_sep(s);
    if f == -1 {
        assert(!scheme_sep_at(s, k));
    }
}

/// When `://` occurs nowhere in `s`, `find_scheme_sep` returns -1.
pub proof fn lemma_find_scheme_sep_none(s: Seq<char>)
    requires
        forall|j: int| !scheme_sep_at(s, j),
    ensures
        find_scheme_sep(s) == -1,
{
    lemma_find_scheme_sep(s);
}

/// Index of the first `://` in `s`, if there is one.
pub fn str_find_scheme_sep(s: &str) -> (r: Option<usize>)
    ensures
        match r {
            Some(i) => i == find_scheme_sep(s@),
            None => find_scheme_sep(s@) == -1,
        },
{
    let n = s.unicode_len();
    let mut i: usize = 0;
    while i < n && n - i >= 3
        invariant
            0 <= i <= n,
            n == s@.len(),
            forall|j: int| 0 <= j < i ==> !scheme_sep_at(s@, j),
        decreases n - i,
    {
        if s.get_char(i) == ':' && s.get_char(i + 1) == '/' && s.get_char(i + 2) == '/' {
            proof {
                lemma_find_scheme_sep_is(s@, i as int);
            }
            return Some(i);
        }
        proof {
            assert(!scheme_sep_at(s@, i as int));
        }
        i += 1;
    }
    proof {
        assert forall|j: int| !scheme_sep_at(s@, j) by {
            if j >= i {
                assert(j + 3 > s@.len());
            }
        }
        lemma_find_scheme_sep_none(s@);
    }
    None
}

/// The repository segment with a trailing `.git` removed: when the segment
/// ends in `.git`, everything from its first `.` on is dropped.
pub open spec fn strip_git_suffix(r: Seq<char>) -> Seq<char> {
    if has_suffix(r, ".git"@) {
        r.take(find_char(r, '.'))
    } else {
        r
    }
}

/// Drops a trailing `.git` from a repository name, leaving any other name
/// unchanged.
pub fn handle_git_extenstion(repo_name: &str) -> (r: &str)
    ensures
        r@ == strip_git_suffix(repo_name@),
{
    if str_has_suffix(repo_name, ".git") {
        proof {
            reveal_strlit(".git");
            let n = repo_name@.len() as int;
            assert(repo_name@.skip(n - 4)[0] == '.');
            assert(repo_name@[n - 4] == '.');
            assert(repo_name@.contains('.'));
            lemma_find_char(repo_name@, '.');
        }
        match str_find_char(repo_name, '.') {
            Some(i) => {
                let r = repo_name.substring_char(0, i);
                proof {
                    assert(r@ =~= repo_name@.take(i as int));
                }
                r
            },
            None => {
                proof {
                    assert(false);
                }
                repo_name
            },
        }
    } else {
        repo_name
    }
}

/// The slash-separated form shared by the two URL-like grammars: blank
/// segments are dropped, exactly three must remain, and the repository
/// segment loses a trailing `.git`. A repository name that is blank after
/// the strip is rejected.
pub open spec fn spec_parse_path(s: Seq<char>) -> Result<(Seq<char>, Seq<char>, Seq<char>), GitError> {
    let segs = nonempty_of(split_on(s, '/'));
    if segs.len() != 3 {
        Err(GitError::MalformedReference)
    } else {
        let repo = strip_git_suffix(segs[2]);
        if repo.len() == 0 {
            Err(GitError::EmptyField)
        } else {
            Ok((segs[0], segs[1], repo))
        }
    }
}

/// The `host:user:repo` grammar: split on `:` with blanks kept, exactly
/// three segments, each non-blank, and as in the other grammars the
/// repository segment loses a trailing `.git` and must not be blank after
/// the strip.
pub open spec fn spec_parse_triple(s: Seq<char>) -> Result<
    (Seq<char>, Seq<char>, Seq<char>),
    GitError,
> {
    let segs = split_on(s, ':');
    if segs.len() != 3 {
        Err(GitError::MalformedReference)
    } else if segs[0].len() == 0 || segs[1].len() == 0 || segs[2].len() == 0 {
        Err(GitError::EmptyField)
    } else {
        let repo = strip_git_suffix(segs[2]);
        if repo.len() == 0 {
            Err(GitError::EmptyField)
        } else {
            Ok((segs[0], segs[1], repo))
        }
    }
}

/// The full-URL grammar: the path is the text between the first `://` and
/// the next `://` or, when there is no second one, the end of the string.
/// It is read as a slash-separated path. A reference that begins with
/// `http` but has no `://` is malformed.
pub open spec fn spec_parse_url(s: Seq<char>) -> Result<(Seq<char>, Seq<char>, Seq<char>), GitError> {
    let i = find_scheme_sep(s);
    if i == -1 {
        Err(GitError::MalformedReference)
    } else {
        let tail = s.skip(i + 3);
        let j = find_scheme_sep(tail);
        if j == -1 {
            spec_parse_path(tail)
        } else {
            spec_parse_path(tail.take(j))
        }
    }
}

/// What parsing a reference string yields: the grammar is chosen by the
/// literal prefix `http` and the presence of `:`, in the fixed order
/// full URL, scheme-less path, `host:user:repo` triple.
pub open spec fn spec_parse(s: Seq<char>) -> Result<(Seq<char>, Seq<char>, Seq<char>), GitError> {
    if has_prefix(s, "http"@) {
        spec_parse_url(s)
    } else if !s.contains(':') {
        spec_parse_path(s)
    } else {
        spec_parse_triple(s)
    }
}

/// The strip leaves no `.git` suffix behind: whatever `strip_git_suffix`
/// returns, it does not end in `.git`.
pub proof fn lemma_strip_git_suffix_strips(r: Seq<char>)
    ensures
        !has_suffix(strip_git_suffix(r), ".git"@),
{
    reveal_strlit(".git");
    if has_suffix(r, ".git"@) {
        let n = r.len() as int;
        assert(r.skip(n - 4)[0] == '.');
        assert(r[n - 4] == '.');
        assert(r.contains('.'));
        lemma_find_char(r, '.');
        let k = find_char(r, '.');
        let out = r.take(k);
        if has_suffix(out, ".git"@) {
            assert(out.skip(k - 4)[0] == '.');
            assert(out[k - 4] == '.');
            assert(r[k - 4] == '.');
        }
    }
}

/// A successful slash-path parse yields three non-empty fields, the third
/// without a `.git` suffix.
proof fn lemma_parse_path_fields(s: Seq<char>)
    ensures
        spec_parse_path(s) matches Ok(t) ==> t.0.len() > 0 && t.1.len() > 0 && t.2.len() > 0
            && !has_suffix(t.2, ".git"@),
{
    if spec_parse_path(s) is Ok {
        let segs = nonempty_of(split_on(s, '/'));
        let pred = |t: Seq<char>| t.len() > 0;
        split_on(s, '/').lemma_filter_pred(pred, 0);
        split_on(s, '/').lemma_filter_pred(pred, 1);
        split_on(s, '/').lemma_filter_pred(pred, 2);
        lemma_strip_git_suffix_strips(segs[2]);
    }
}

/// The invariant of a parsed reference: whatever grammar matched, a
/// successful parse yields three non-empty fields, and the repository
/// name carries no `.git` suffix.
pub proof fn lemma_parse_fields_wellformed(s: Seq<char>)
    ensures
        spec_parse(s) matches Ok(t) ==> t.0.len() > 0 && t.1.len() > 0 && t.2.len() > 0
            && !has_suffix(t.2, ".git"@),
{
    if spec_parse(s) is Ok {
        if has_prefix(s, "http"@) {
            let tail = s.skip(find_scheme_sep(s) + 3);
            if find_scheme_sep(tail) == -1 {
                lemma_parse_path_fields(tail);
            } else {
                lemma_parse_path_fields(tail.take(find_scheme_sep(tail)));
            }
        } else if !s.contains(':') {
            lemma_parse_path_fields(s);
        } else {
            let segs = split_on(s, ':');
            lemma_strip_git_suffix_strips(segs[2]);
        }
    }
}

} // verus!
