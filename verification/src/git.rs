//! The git command lines the status helpers run on a list of paths.

use vstd::prelude::*;
use vstd::string::StringExecFns;
use crate::helper::string_texts;
use crate::text::owned;

verus! {

/// `prefix` followed by `paths`.
fn with_paths(prefix: Vec<String>, paths: &[String]) -> (res: Vec<String>)
    ensures
        string_texts(res@) == string_texts(prefix@) + string_texts(paths@),
{
    let mut res = prefix;
    let ghost start = string_texts(res@);
    let mut i: usize = 0;
    while i < paths.len()
        invariant
            i <= paths@.len(),
            res@.len() == start.len() + i,
            forall|j: int| 0 <= j < start.len() ==> #[trigger] res@[j]@ == start[j],
            forall|j: int| 0 <= j < i ==> #[trigger] res@[start.len() + j]@ == paths@[j]@,
        decreases paths@.len() - i,
    {
        let p = owned(paths[i].as_str());
        res.push(p);
        i = i + 1;
    }
    assert forall|j: int| 0 <= j < res@.len() implies #[trigger] string_texts(res@)[j] == (start
        + string_texts(paths@))[j] by {
        if j >= start.len() {
            assert(res@[start.len() + (j - start.len())]@ == paths@[j - start.len()]@);
        }
    }
    assert(string_texts(res@) =~= start + string_texts(paths@));
    res
}

/// `git add -- <paths>`: staging.
pub fn stage_args(paths: &[String]) -> (res: Vec<String>)
    ensures
        string_texts(res@) == seq!["add"@, "--"@] + string_texts(paths@),
{
    let mut p: Vec<String> = Vec::new();
    p.push(String::from_str("add"));
    p.push(String::from_str("--"));
    assert(string_texts(p@) =~= seq!["add"@, "--"@]);
    with_paths(p, paths)
}

/// `git reset -- <paths>`: unstaging.
pub fn unstage_args(paths: &[String]) -> (res: Vec<String>)
    ensures
        string_texts(res@) == seq!["reset"@, "--"@] + string_texts(paths@),
{
    let mut p: Vec<String> = Vec::new();
    p.push(String::from_str("reset"));
    p.push(String::from_str("--"));
    assert(string_texts(p@) =~= seq!["reset"@, "--"@]);
    with_paths(p, paths)
}

/// `git checkout HEAD -- <paths>`: discarding tracked changes.
pub fn checkout_args(paths: &[String]) -> (res: Vec<String>)
    ensures
        string_texts(res@) == seq!["checkout"@, "HEAD"@, "--"@] + string_texts(paths@),
{
    let mut p: Vec<String> = Vec::new();
    p.push(String::from_str("checkout"));
    p.push(String::from_str("HEAD"));
    p.push(String::from_str("--"));
    assert(string_texts(p@) =~= seq!["checkout"@, "HEAD"@, "--"@]);
    with_paths(p, paths)
}

/// `git add --patch -- <files>`: staging hunk by hunk.
pub fn patch_args(files: &[String]) -> (res: Vec<String>)
    ensures
        string_texts(res@) == seq!["add"@, "--patch"@, "--"@] + string_texts(files@),
{
    let mut p: Vec<String> = Vec::new();
    p.push(String::from_str("add"));
    p.push(String::from_str("--patch"));
    p.push(String::from_str("--"));
    assert(string_texts(p@) =~= seq!["add"@, "--patch"@, "--"@]);
    with_paths(p, files)
}

/// `git commit --amend --reuse-message=HEAD`: amending the last commit.
pub fn amend_args() -> (res: Vec<String>)
    ensures
        string_texts(res@) == seq!["commit"@, "--amend"@, "--reuse-message=HEAD"@],
{
    let mut p: Vec<String> = Vec::new();
    p.push(String::from_str("commit"));
    p.push(String::from_str("--amend"));
    p.push(String::from_str("--reuse-message=HEAD"));
    assert(string_texts(p@) =~= seq!["commit"@, "--amend"@, "--reuse-message=HEAD"@]);
    p
}

/// How picked paths are discarded.
pub enum Discard {
    /// Tracked paths: run `git <args>` to restore them from HEAD.
    Checkout(Vec<String>),
    /// Untracked paths: remove them from disk.
    Remove(Vec<String>),
}

/// Discarding: tracked paths (as git reports of the first one) go back to
/// HEAD, untracked ones are removed; nothing is done without a path.
pub fn discard_plan(paths: &[String], first_tracked: bool) -> (res: Option<Discard>)
    ensures
        paths@.len() == 0 <==> res is None,
        match res {
            Some(Discard::Checkout(args)) => first_tracked && string_texts(args@) == seq![
                "checkout"@,
                "HEAD"@,
                "--"@,
            ] + string_texts(paths@),
            Some(Discard::Remove(ps)) => !first_tracked && string_texts(ps@) == string_texts(
                paths@,
            ),
            None => true,
        },
{
    if paths.len() == 0 {
        return None;
    }
    if first_tracked {
        Some(Discard::Checkout(checkout_args(paths)))
    } else {
        let empty: Vec<String> = Vec::new();
        let ps = with_paths(empty, paths);
        assert(string_texts(empty@) =~= Seq::<Seq<char>>::empty());
        Some(Discard::Remove(ps))
    }
}

/// The editor to run: `$EDITOR`, or `vi` when it is unset.
pub fn editor_program(value: Option<&str>) -> (res: String)
    ensures
        res@ == (match value {
            Some(v) => v@,
            None => "vi"@,
        }),
{
    match value {
        Some(v) => owned(v),
        None => String::from_str("vi"),
    }
}

} // verus!
