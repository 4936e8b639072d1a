//! The command plans of the git flows: the exact step sequences that
//! branch creation and finalization run, and the argv vectors of the
//! commit, tag and add operations. Planning is pure; spawning the steps
//! is the caller's.

use vstd::prelude::*;

verus! {

fn argv1(a: &str) -> (r: Vec<String>)
    ensures
        r.deep_view() =~= seq![a@],
{
    let mut v: Vec<String> = Vec::new();
    v.push(a.to_owned());
    v
}

fn argv2(a: &str, b: &str) -> (r: Vec<String>)
    ensures
        r.deep_view() =~= seq![a@, b@],
{
    let mut v: Vec<String> = Vec::new();
    v.push(a.to_owned());
    v.push(b.to_owned());
    v
}

fn argv3(a: &str, b: &str, c: &str) -> (r: Vec<String>)
    ensures
        r.deep_view() =~= seq![a@, b@, c@],
{
    let mut v: Vec<String> = Vec::new();
    v.push(a.to_owned());
    v.push(b.to_owned());
    v.push(c.to_owned());
    v
}

fn argv4(a: &str, b: &str, c: &str, d: &str) -> (r: Vec<String>)
    ensures
        r.deep_view() =~= seq![a@, b@, c@, d@],
{
    let mut v: Vec<String> = Vec::new();
    v.push(a.to_owned());
    v.push(b.to_owned());
    v.push(c.to_owned());
    v.push(d.to_owned());
    v
}

fn argv5(a: &str, b: &str, c: &str, d: &str, e: &str) -> (r: Vec<String>)
    ensures
        r.deep_view() =~= seq![a@, b@, c@, d@, e@],
{
    let mut v: Vec<String> = Vec::new();
    v.push(a.to_owned());
    v.push(b.to_owned());
    v.push(c.to_owned());
    v.push(d.to_owned());
    v.push(e.to_owned());
    v
}

/// The argv of a commit with a message (for the git binary).
pub fn git_commit(message: &str) -> (r: Vec<String>)
    ensures
        r.deep_view() =~= seq!["commit"@, "-m"@, message@],
{
    argv3("commit", "-m", message)
}

/// The argv of creating a tag.
pub fn git_tag(tag: &str) -> (r: Vec<String>)
    ensures
        r.deep_view() =~= seq!["tag"@, tag@],
{
    argv2("tag", tag)
}

/// The argv of staging a list of paths.
pub fn git_add(paths: &Vec<String>) -> (r: Vec<String>)
    ensures
        r.deep_view() =~= seq!["add"@] + paths.deep_view(),
{
    let mut v: Vec<String> = Vec::new();
    v.push("add".to_owned());
    let mut i: usize = 0;
    while i < paths.len()
        invariant
            i <= paths@.len(),
            v@.len() == i + 1,
            v@[0]@ == "add"@,
            forall|j: int| 0 <= j < i ==> v@[j + 1]@ == paths@[j]@,
        decreases paths@.len() - i,
    {
        v.push(paths[i].clone());
        i = i + 1;
    }
    proof {
        assert(v.deep_view() =~= seq!["add"@] + paths.deep_view());
    }
    v
}

/// The exact steps of branch creation: fetch and prune, check the base
/// out, rebase it onto its origin, recreate the branch from it, and push
/// the branch upstream.
pub fn branch_create_steps(name: &str, base: &str) -> (r: Vec<Vec<String>>)
    ensures
        r.deep_view() =~= seq![
            seq!["git"@, "fetch"@, "--all"@, "--prune"@],
            seq!["git"@, "checkout"@, base@],
            seq!["git"@, "pull"@, "--rebase"@, "origin"@, base@],
            seq!["git"@, "checkout"@, "-B"@, name@, base@],
            seq!["git"@, "push"@, "--set-upstream"@, "origin"@, name@],
        ],
{
    let mut steps: Vec<Vec<String>> = Vec::new();
    steps.push(argv4("git", "fetch", "--all", "--prune"));
    steps.push(argv3("git", "checkout", base));
    steps.push(argv5("git", "pull", "--rebase", "origin", base));
    steps.push(argv5("git", "checkout", "-B", name, base));
    steps.push(argv5("git", "push", "--set-upstream", "origin", name));
    proof {
        assert forall|j: int| 0 <= j < steps@.len() implies steps.deep_view()[j] == steps@[
            j
        ].deep_view() by {}
        assert(steps.deep_view() =~= seq![
            seq!["git"@, "fetch"@, "--all"@, "--prune"@],
            seq!["git"@, "checkout"@, base@],
            seq!["git"@, "pull"@, "--rebase"@, "origin"@, base@],
            seq!["git"@, "checkout"@, "-B"@, name@, base@],
            seq!["git"@, "push"@, "--set-upstream"@, "origin"@, name@],
        ]);
    }
    steps
}

/// The exact steps of branch finalization: fetch and prune, check the
/// base out, rebase it onto its origin, merge the branch without fast
/// forward, push the base, and optionally delete the branch locally and
/// remotely.
pub fn branch_finalize_steps(branch: &str, base: &str, delete: bool) -> (r: Vec<Vec<String>>)
    ensures
        r.deep_view() =~= seq![
            seq!["git"@, "fetch"@, "--all"@, "--prune"@],
            seq!["git"@, "checkout"@, base@],
            seq!["git"@, "pull"@, "--rebase"@, "origin"@, base@],
            seq!["git"@, "merge"@, "--no-ff"@, branch@],
            seq!["git"@, "push"@, "origin"@, base@],
        ] + (if delete {
            seq![
                seq!["git"@, "branch"@, "-d"@, branch@],
                seq!["git"@, "push"@, "origin"@, "--delete"@, branch@],
            ]
        } else {
            Seq::empty()
        }),
{
    let mut steps: Vec<Vec<String>> = Vec::new();
    steps.push(argv4("git", "fetch", "--all", "--prune"));
    steps.push(argv3("git", "checkout", base));
    steps.push(argv5("git", "pull", "--rebase", "origin", base));
    steps.push(argv4("git", "merge", "--no-ff", branch));
    steps.push(argv4("git", "push", "origin", base));
    if delete {
        steps.push(argv4("git", "branch", "-d", branch));
        steps.push(argv5("git", "push", "origin", "--delete", branch));
    }
    proof {
        assert forall|j: int| 0 <= j < steps@.len() implies steps.deep_view()[j] == steps@[
            j
        ].deep_view() by {}
        assert(steps.deep_view() =~= seq![
            seq!["git"@, "fetch"@, "--all"@, "--prune"@],
            seq!["git"@, "checkout"@, base@],
            seq!["git"@, "pull"@, "--rebase"@, "origin"@, base@],
            seq!["git"@, "merge"@, "--no-ff"@, branch@],
            seq!["git"@, "push"@, "origin"@, base@],
        ] + (if delete {
            seq![
                seq!["git"@, "branch"@, "-d"@, branch@],
                seq!["git"@, "push"@, "origin"@, "--delete"@, branch@],
            ]
        } else {
            Seq::empty()
        }));
    }
    steps
}

/// The exact steps preparing a release pull request: fetch and prune,
/// check the head out, rebase it onto its origin, push it, and open the
/// pull request from head into base (optionally without opening a
/// browser).
pub fn release_pr_steps(base: &str, head: &str, no_open: bool) -> (r: Vec<Vec<String>>)
    ensures
        r.deep_view() =~= seq![
            seq!["git"@, "fetch"@, "--all"@, "--prune"@],
            seq!["git"@, "checkout"@, head@],
            seq!["git"@, "pull"@, "--rebase"@, "origin"@, head@],
            seq!["git"@, "push"@, "origin"@, head@],
        ] + seq![
            (if no_open {
                seq![
                    "gh"@,
                    "pr"@,
                    "create"@,
                    "--base"@,
                    base@,
                    "--head"@,
                    head@,
                    "--fill"@,
                    "--no-open"@,
                ]
            } else {
                seq!["gh"@, "pr"@, "create"@, "--base"@, base@, "--head"@, head@, "--fill"@]
            }),
        ],
{
    let mut steps: Vec<Vec<String>> = Vec::new();
    steps.push(argv4("git", "fetch", "--all", "--prune"));
    steps.push(argv3("git", "checkout", head));
    steps.push(argv5("git", "pull", "--rebase", "origin", head));
    steps.push(argv4("git", "push", "origin", head));
    let mut pr: Vec<String> = Vec::new();
    pr.push("gh".to_owned());
    pr.push("pr".to_owned());
    pr.push("create".to_owned());
    pr.push("--base".to_owned());
    pr.push(base.to_owned());
    pr.push("--head".to_owned());
    pr.push(head.to_owned());
    pr.push("--fill".to_owned());
    if no_open {
        pr.push("--no-open".to_owned());
    }
    proof {
        if no_open {
            assert(pr.deep_view() =~= seq![
                "gh"@,
                "pr"@,
                "create"@,
                "--base"@,
                base@,
                "--head"@,
                head@,
                "--fill"@,
                "--no-open"@,
            ]);
        } else {
            assert(pr.deep_view() =~= seq![
                "gh"@,
                "pr"@,
                "create"@,
                "--base"@,
                base@,
                "--head"@,
                head@,
                "--fill"@,
            ]);
        }
    }
    steps.push(pr);
    proof {
        assert forall|j: int| 0 <= j < steps@.len() implies steps.deep_view()[j] == steps@[
            j
        ].deep_view() by {}
        assert(steps.deep_view() =~= seq![
            seq!["git"@, "fetch"@, "--all"@, "--prune"@],
            seq!["git"@, "checkout"@, head@],
            seq!["git"@, "pull"@, "--rebase"@, "origin"@, head@],
            seq!["git"@, "push"@, "origin"@, head@],
        ] + seq![
            (if no_open {
                seq![
                    "gh"@,
                    "pr"@,
                    "create"@,
                    "--base"@,
                    base@,
                    "--head"@,
                    head@,
                    "--fill"@,
                    "--no-open"@,
                ]
            } else {
                seq!["gh"@, "pr"@, "create"@, "--base"@, base@, "--head"@, head@, "--fill"@]
            }),
        ]);
    }
    steps
}

/// The default base branch of the branch flows.
pub fn default_base_branch() -> (r: &'static str)
    ensures
        r@ == "release-candidate"@,
{
    "release-candidate"
}

/// The default main branch of the release flow.
pub fn default_main_branch() -> (r: &'static str)
    ensures
        r@ == "main"@,
{
    "main"
}

} // verus!
