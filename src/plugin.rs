use vstd::prelude::*;
use vstd::string::*;
use crate::text::{ends_with_str, is_suffix, owned, substring};

verus! {

#[derive(Clone, Copy, Debug, PartialEq, Eq, Structural)]
pub enum PluginStatus {
    Installed,
    NotInstalled,
}

impl PluginStatus {
    pub fn display(&self) -> (r: &'static str)
        ensures
            *self == PluginStatus::Installed ==> r@ == "installed"@,
            *self == PluginStatus::NotInstalled ==> r@ == "not installed"@,
    {
        match self {
            PluginStatus::Installed => "installed",
            PluginStatus::NotInstalled => "not installed",
        }
    }
}

/// A plugin of the catalog and the marketplace it comes from.
#[derive(Clone, Debug)]
pub struct PluginDef {
    pub name: String,
    pub marketplace: String,
    pub source: String,
    pub comment: Option<String>,
}

#[derive(Clone, Debug)]
pub struct Plugin {
    pub def: PluginDef,
    pub selected: bool,
    pub status: PluginStatus,
}

/// `s` with every trailing `.git` removed.
pub open spec fn trim_git(s: Seq<char>) -> Seq<char>
    decreases s.len(),
{
    if s.len() >= 4 && is_suffix(".git"@, s) {
        trim_git(s.subrange(0, s.len() - 4))
    } else {
        s
    }
}

/// `p` occurs in `s` at position `j`.
pub open spec fn occurs_at(s: Seq<char>, p: Seq<char>, j: int) -> bool {
    0 <= j && j + p.len() <= s.len() && s.subrange(j, j + p.len()) == p
}

/// The last position, at most `j`, where `p` occurs in `s`; `-1` if none.
pub open spec fn last_occurrence(s: Seq<char>, p: Seq<char>, j: int) -> int
    decreases j + 1,
{
    if j < 0 {
        -1
    } else if occurs_at(s, p, j) {
        j
    } else {
        last_occurrence(s, p, j - 1)
    }
}

/// What follows the last occurrence of `p` in `s`, or all of `s` when `p`
/// does not occur.
pub open spec fn after_last(s: Seq<char>, p: Seq<char>) -> Seq<char> {
    let j = last_occurrence(s, p, s.len() - p.len());
    if j < 0 {
        s
    } else {
        s.subrange(j + p.len(), s.len() as int)
    }
}

pub fn occurs_at_exec(s: &str, p: &str, j: usize) -> (r: bool)
    requires
        j + p@.len() <= s@.len(),
    ensures
        r == occurs_at(s@, p@, j as int),
{
    let n = s.unicode_len();
    let m = p.unicode_len();
    let mut i: usize = 0;
    while i < m
        invariant
            m == p@.len(),
            n == s@.len(),
            j + m <= s@.len(),
            i <= m,
            forall|t: int| 0 <= t < i ==> s@[j + t] == p@[t],
        decreases m - i,
    {
        if s.get_char(j + i) != p.get_char(i) {
            assert(s@.subrange(j as int, j + m)[i as int] != p@[i as int]);
            return false;
        }
        i = i + 1;
    }
    assert(s@.subrange(j as int, j + m) =~= p@);
    true
}

/// What follows the last occurrence of `p` in `s` (all of `s` without one).
pub fn tail_after_last(s: &str, p: &str) -> (r: String)
    ensures
        r@ == after_last(s@, p@),
{
    let n = s.unicode_len();
    let m = p.unicode_len();
    if m > n {
        return owned(s);
    }
    if m == 0 {
        assert(occurs_at(s@, p@, n as int)) by {
            assert(s@.subrange(n as int, n as int) =~= p@);
        }
        assert(s@.subrange(n as int, n as int) =~= Seq::<char>::empty());
        return String::new();
    }
    let mut j: usize = n - m + 1;
    while j > 0
        invariant
            n == s@.len(),
            m == p@.len(),
            m <= n,
            j <= n - m + 1,
            last_occurrence(s@, p@, n - m) == last_occurrence(s@, p@, j - 1),
        decreases j,
    {
        j = j - 1;
        if occurs_at_exec(s, p, j) {
            return substring(s, j + m, n);
        }
    }
    owned(s)
}

/// `s` without its trailing `.git` suffixes.
pub fn trim_git_suffix(s: &str) -> (r: String)
    ensures
        r@ == trim_git(s@),
{
    let mut cur = owned(s);
    while ends_with_str(cur.as_str(), ".git")
        invariant
            trim_git(cur@) == trim_git(s@),
        decreases cur@.len(),
    {
        proof {
            reveal_strlit(".git");
        }
        let n = cur.as_str().unicode_len();
        cur = substring(cur.as_str(), 0, n - 4);
    }
    cur
}

/// The marketplace name that a repository URL stands for: its last path
/// segment, without `.git`.
pub fn extract_marketplace_name(repo_url: &str) -> (r: String)
    ensures
        r@ == after_last(trim_git(repo_url@), "/"@),
{
    let t = trim_git_suffix(repo_url);
    tail_after_last(t.as_str(), "/")
}

impl Plugin {
    pub fn new(def: PluginDef, status: PluginStatus) -> (r: Plugin)
        ensures
            r.def == def,
            r.status == status,
            !r.selected,
    {
        Plugin { def, selected: false, status }
    }

    /// `owner/repo` of a GitHub source URL; the source itself otherwise.
    pub fn short_repo(&self) -> (r: String)
        ensures
            r@ == after_last(trim_git(self.def.source@), "github.com/"@),
    {
        let t = trim_git_suffix(self.def.source.as_str());
        tail_after_last(t.as_str(), "github.com/")
    }
}

} // verus!
