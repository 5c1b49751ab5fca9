use vstd::prelude::*;

use crate::text::{trim_str, trimmed};
use crate::version::{split_by, split_chars};

verus! {

/// Position of the first `?` or `#` (the length when there is none).
pub open spec fn query_start(s: Seq<char>) -> nat
    decreases s.len(),
{
    if s.len() == 0 {
        0
    } else if s[0] == '?' || s[0] == '#' {
        0
    } else {
        1 + query_start(s.drop_first())
    }
}

proof fn lemma_query_start(s: Seq<char>, k: int)
    requires
        0 <= k <= s.len(),
        forall|j: int| 0 <= j < k ==> #[trigger] s[j] != '?' && s[j] != '#',
        k == s.len() || s[k] == '?' || s[k] == '#',
    ensures
        query_start(s) == k,
    decreases k,
{
    if k > 0 {
        let t = s.drop_first();
        assert(s[0] != '?' && s[0] != '#');
        assert forall|j: int| 0 <= j < k - 1 implies #[trigger] t[j] != '?' && t[j] != '#' by {
            assert(t[j] == s[j + 1]);
        }
        if k < s.len() {
            assert(t[k - 1] == s[k]);
        }
        lemma_query_start(t, k - 1);
    }
}

/// The URL without surrounding whitespace, query/fragment and `.git`
/// suffix.
pub open spec fn repo_url_base(url: Seq<char>) -> Seq<char> {
    let t = trimmed(url);
    let q = t.take(query_start(t) as int);
    if q.len() >= 4 && q.skip(q.len() - 4) == seq!['.', 'g', 'i', 't'] {
        q.take(q.len() - 4)
    } else {
        q
    }
}

/// The last non-empty segment among `segs[..n]`.
pub open spec fn last_nonempty(segs: Seq<Seq<char>>, n: int) -> Option<Seq<char>>
    decreases n,
{
    if n <= 0 {
        None
    } else if segs[n - 1].len() > 0 {
        Some(segs[n - 1])
    } else {
        last_nonempty(segs, n - 1)
    }
}

/// The repository name of a git remote URL: the last non-empty `/`- or
/// `:`-separated segment once whitespace, query/fragment and a `.git`
/// suffix are removed.
pub open spec fn repo_name(url: Seq<char>) -> Option<Seq<char>> {
    let segs = split_by(repo_url_base(url), '/', ':');
    last_nonempty(segs, segs.len() as int)
}

/// Parses the repository name from a git remote URL (HTTPS or SSH form).
pub fn parse_repo_name_from_url(url: &str) -> (r: Option<String>)
    ensures
        match (r, repo_name(url@)) {
            (Some(s), Some(n)) => s@ == n,
            (None, None) => true,
            _ => false,
        },
{
    let t = trim_str(url);
    let ts = t.as_str();
    let n = ts.unicode_len();
    let mut k: usize = 0;
    while k < n
        invariant
            n == ts@.len(),
            k <= n,
            forall|j: int| 0 <= j < k ==> #[trigger] ts@[j] != '?' && ts@[j] != '#',
        ensures
            k == n || ts@[k as int] == '?' || ts@[k as int] == '#',
        decreases n - k,
    {
        let c = ts.get_char(k);
        if c == '?' || c == '#' {
            break;
        }
        k = k + 1;
    }
    proof {
        lemma_query_start(ts@, k as int);
    }
    let q = ts.substring_char(0, k);
    let mut end = k;
    if k >= 4 && q.get_char(k - 4) == '.' && q.get_char(k - 3) == 'g' && q.get_char(k - 2) == 'i'
        && q.get_char(k - 1) == 't' {
        end = k - 4;
        proof {
            assert(q@.skip(q@.len() - 4) =~= seq!['.', 'g', 'i', 't']);
        }
    } else {
        proof {
            if q@.len() >= 4 && q@.skip(q@.len() - 4) == seq!['.', 'g', 'i', 't'] {
                assert(q@.skip(q@.len() - 4)[0] == q@[k - 4]);
                assert(q@.skip(q@.len() - 4)[1] == q@[k - 3]);
                assert(q@.skip(q@.len() - 4)[2] == q@[k - 2]);
                assert(q@.skip(q@.len() - 4)[3] == q@[k - 1]);
            }
        }
    }
    let base = q.substring_char(0, end);
    proof {
        assert(base@ =~= repo_url_base(url@));
    }
    let segs = split_chars(base, '/', ':');
    let mut i: usize = segs.len();
    while i > 0
        invariant
            i <= segs@.len(),
            segs@.len() == split_by(base@, '/', ':').len(),
            forall|j: int| 0 <= j < segs@.len() ==> #[trigger] segs@[j]@ == split_by(base@, '/', ':')[j],
            repo_name(url@) == last_nonempty(split_by(base@, '/', ':'), i as int),
        decreases i,
    {
        if segs[i - 1].as_str().unicode_len() > 0 {
            return Some(segs[i - 1].clone());
        }
        i = i - 1;
    }
    None
}

} // verus!

verus! {

/// What the git commands printed, for each command that ran successfully
/// and printed UTF-8 (`None` otherwise), and the project directory's name.
#[derive(Debug, Clone)]
pub struct GitReadings {
    /// Output of `git rev-parse --abbrev-ref HEAD`.
    pub branch: Option<String>,
    /// Output of `git rev-parse HEAD`.
    pub hash: Option<String>,
    /// Output of `git remote get-url origin`.
    pub remote_url: Option<String>,
    /// The last component of the project path, if it has one.
    pub dir_name: Option<String>,
}

/// A command's trimmed output, or `fallback` when it did not run.
pub open spec fn output_or(o: Option<String>, fallback: Seq<char>) -> Seq<char> {
    match o {
        Some(s) => trimmed(s@),
        None => fallback,
    }
}

/// The repository name: from the remote URL when one parses, else the
/// directory name, else `"unknown"`.
pub open spec fn resolved_repo(g: GitReadings) -> Seq<char> {
    match g.remote_url {
        Some(u) => match repo_name(trimmed(u@)) {
            Some(n) => n,
            None => match g.dir_name {
                Some(d) => d@,
                None => "unknown"@,
            },
        },
        None => match g.dir_name {
            Some(d) => d@,
            None => "unknown"@,
        },
    }
}

/// The repository name the remote URL gives, if there is a URL and it
/// parses.
pub open spec fn repo_from_url(g: GitReadings) -> Option<Seq<char>> {
    match g.remote_url {
        Some(u) => repo_name(trimmed(u@)),
        None => None,
    }
}

/// The repository name is taken from the remote URL when it yields one;
/// otherwise from the directory name whenever there is one (with no remote
/// as with a remote that does not parse); `"unknown"` only when both are
/// missing.
pub proof fn lemma_repo_fallback_order(g: GitReadings)
    ensures
        repo_from_url(g) is Some ==> resolved_repo(g) == repo_from_url(g)->0,
        repo_from_url(g) is None && g.dir_name is Some ==> resolved_repo(g) == g.dir_name->0@,
        repo_from_url(g) is None && g.dir_name is None ==> resolved_repo(g) == "unknown"@,
{
}

fn output_or_exec(o: &Option<String>, fallback: &str) -> (r: String)
    ensures
        r@ == output_or(*o, fallback@),
{
    match o {
        Some(s) => trim_str(s.as_str()),
        None => String::from_str(fallback),
    }
}

/// Resolves `(branch, hash, repo)` from the git readings: each command's
/// trimmed output, `"unknown"` for a command that did not run, and the
/// repository name from the remote URL, the directory name, or
/// `"unknown"`.
pub fn resolve_git_info(g: &GitReadings) -> (r: (String, String, String))
    ensures
        r.0@ == output_or(g.branch, "unknown"@),
        r.1@ == output_or(g.hash, "unknown"@),
        r.2@ == resolved_repo(*g),
        repo_from_url(*g) is Some ==> r.2@ == repo_from_url(*g)->0,
        repo_from_url(*g) is None && g.dir_name is Some ==> r.2@ == g.dir_name->0@,
        repo_from_url(*g) is None && g.dir_name is None ==> r.2@ == "unknown"@,
{
    proof {
        lemma_repo_fallback_order(*g);
    }
    let branch = output_or_exec(&g.branch, "unknown");
    let hash = output_or_exec(&g.hash, "unknown");
    let from_url = match &g.remote_url {
        Some(u) => {
            let t = trim_str(u.as_str());
            parse_repo_name_from_url(t.as_str())
        },
        None => None,
    };
    let repo = match from_url {
        Some(n) => n,
        None => match &g.dir_name {
            Some(d) => d.clone(),
            None => String::from_str("unknown"),
        },
    };
    (branch, hash, repo)
}

} // verus!
