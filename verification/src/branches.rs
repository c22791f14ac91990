//! Branch-list views: choosing the default branch and the main branches
//! out of what source control reports.

use vstd::prelude::*;
use vstd::string::StrSliceExecFns;
use vstd::string::StringExecFns;
use crate::text::spec_contains;
use crate::text::spec_match_at;
use crate::text::spec_trim;

verus! {

/// What the branch-list endpoint answers.
#[derive(Debug)]
pub struct BranchListResponse {
    pub branches: Vec<String>,
    pub default_branch: Option<String>,
}

/// Some listed branch has this name.
pub open spec fn spec_has_branch(items: Seq<String>, name: Seq<char>) -> bool {
    exists|i: int| 0 <= i < items.len() && (#[trigger] items[i])@ == name
}

/// Whether the list holds a branch of this name.
pub fn has_branch(items: &Vec<String>, name: &str) -> (r: bool)
    ensures
        r == spec_has_branch(items@, name@),
{
    let n = items.len();
    let mut i: usize = 0;
    while i < n
        invariant
            n == items@.len(),
            i <= n,
            forall|j: int| 0 <= j < i ==> (#[trigger] items@[j])@ != name@,
        decreases n - i,
    {
        if crate::text::str_eq_str(items[i].as_str(), name) {
            proof {
                assert((items@[i as int])@ == name@);
            }
            return true;
        }
        i = i + 1;
    }
    false
}

/// The default branch shown first: `main`, else `master`, else `develop`,
/// else the first listed branch, else none.
pub open spec fn spec_default_branch(items: Seq<String>) -> Option<Seq<char>> {
    if spec_has_branch(items, "main"@) {
        Some("main"@)
    } else if spec_has_branch(items, "master"@) {
        Some("master"@)
    } else if spec_has_branch(items, "develop"@) {
        Some("develop"@)
    } else if items.len() > 0 {
        Some(items[0]@)
    } else {
        None
    }
}

/// Picks the default branch out of a branch list.
pub fn pick_default_branch(branches: &Vec<String>) -> (r: Option<String>)
    ensures
        crate::task::spec_opt_view(r) == spec_default_branch(branches@),
{
    if has_branch(branches, "main") {
        Some("main".to_owned())
    } else if has_branch(branches, "master") {
        Some("master".to_owned())
    } else if has_branch(branches, "develop") {
        Some("develop".to_owned())
    } else if branches.len() > 0 {
        Some(branches[0].clone())
    } else {
        None
    }
}

/// The main branches, in priority order: whichever of `main`, `master` and
/// `develop` the list holds; all branches when it holds none of them.
pub open spec fn spec_main_branches(items: Seq<String>) -> Seq<Seq<char>> {
    let picks = (if spec_has_branch(items, "main"@) {
        seq!["main"@]
    } else {
        Seq::<Seq<char>>::empty()
    }) + (if spec_has_branch(items, "master"@) {
        seq!["master"@]
    } else {
        Seq::<Seq<char>>::empty()
    }) + (if spec_has_branch(items, "develop"@) {
        seq!["develop"@]
    } else {
        Seq::<Seq<char>>::empty()
    });
    if picks.len() == 0 {
        crate::queue::spec_string_views(items)
    } else {
        picks
    }
}

/// Picks the main branches out of a branch list.
pub fn get_main_branches(branches: &Vec<String>) -> (r: Vec<String>)
    ensures
        crate::queue::spec_string_views(r@) == spec_main_branches(branches@),
{
    let mut picks: Vec<String> = Vec::new();
    proof {
        assert(crate::queue::spec_string_views(picks@) =~= Seq::<Seq<char>>::empty());
    }
    if has_branch(branches, "main") {
        picks.push("main".to_owned());
    }
    if has_branch(branches, "master") {
        picks.push("master".to_owned());
    }
    if has_branch(branches, "develop") {
        picks.push("develop".to_owned());
    }
    if picks.len() == 0 {
        let r = crate::config::clone_string_vec(branches);
        proof {
            assert(crate::queue::spec_string_views(r@) =~= spec_main_branches(branches@));
        }
        r
    } else {
        proof {
            assert(crate::queue::spec_string_views(picks@) =~= spec_main_branches(branches@));
        }
        picks
    }
}

/// Length of the run of `*` markers at the front of a trimmed line; the
/// current branch is listed with one.
pub open spec fn spec_star_head(s: Seq<char>) -> int
    decreases s.len(),
{
    if s.len() > 0 && s[0] == '*' {
        1 + spec_star_head(s.drop_first())
    } else {
        0
    }
}

/// The marker run is a prefix: stars before it, none right after it.
proof fn lemma_star_head(s: Seq<char>)
    ensures
        0 <= spec_star_head(s) <= s.len(),
        forall|k: int| 0 <= k < spec_star_head(s) ==> s[k] == '*',
        spec_star_head(s) < s.len() ==> s[spec_star_head(s)] != '*',
    decreases s.len(),
{
    if s.len() > 0 && s[0] == '*' {
        lemma_star_head(s.drop_first());
        assert forall|k: int| 0 <= k < spec_star_head(s) implies s[k] == '*' by {
            if k > 0 {
                assert(s.drop_first()[k - 1] == s[k]);
            }
        }
        if spec_star_head(s) < s.len() {
            assert(s.drop_first()[spec_star_head(s) - 1] == s[spec_star_head(s)]);
        }
    }
}

/// The branch name one line of the source-control listing names: remote
/// refs and detached-head markers are dropped, the current-branch marker
/// and surrounding whitespace stripped; an empty remainder names nothing.
pub open spec fn spec_branch_of_line(line: Seq<char>) -> Option<Seq<char>> {
    let t = spec_trim(line);
    if spec_match_at(t, 0, "remotes/"@) || spec_contains(t, "HEAD"@) {
        None
    } else {
        let u = spec_trim(t.subrange(spec_star_head(t), t.len() as int));
        if u.len() == 0 {
            None
        } else {
            Some(u)
        }
    }
}

/// Reads one line of the source-control branch listing.
pub fn branch_of_line(line: &str) -> (r: Option<String>)
    ensures
        crate::task::spec_opt_view(r) == spec_branch_of_line(line@),
{
    let t = crate::text::trim_ws(line);
    if crate::text::starts_with_sub(t, "remotes/") || crate::text::contains_sub(t, "HEAD") {
        return None;
    }
    let n = t.unicode_len();
    let mut i: usize = 0;
    while i < n && t.get_char(i) == '*'
        invariant
            n == t@.len(),
            i <= n,
            forall|k: int| 0 <= k < i ==> t@[k] == '*',
        decreases n - i,
    {
        i = i + 1;
    }
    proof {
        lemma_star_head(t@);
        assert(spec_star_head(t@) == i as int) by {
            if spec_star_head(t@) < i as int {
                assert(t@[spec_star_head(t@)] == '*');
            }
            if spec_star_head(t@) > i as int {
                assert(t@[i as int] == '*');
            }
        }
    }
    let stripped = t.substring_char(i, n);
    let u = crate::text::trim_ws(stripped);
    if u.unicode_len() == 0 {
        None
    } else {
        Some(u.to_owned())
    }
}

} // verus!
