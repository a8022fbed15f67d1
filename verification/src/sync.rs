//! The commands that keep the vault under version control, and the editor.

use vstd::prelude::*;

verus! {

/// The program that keeps the vault's history.
pub const SYNC_PROGRAM: &'static str = "git";

/// The program in which a note is edited; it gets the note's path as its
/// only argument.
pub const EDITOR_PROGRAM: &'static str = "helix";

/// How the time of a synchronization is written, in the notation of `strftime`.
pub const STAMP_FORMAT: &'static str = "%Y-%m-%d %H:%M:%S";

/// What the message of a synchronization's commit begins with.
pub const COMMIT_PREFIX: &'static str = "Manual Sync: ";

/// What is reported after a push that succeeded.
pub const SYNC_SUCCEEDED: &'static str = "Sync Successful!";

/// What is reported after a push that failed.
pub const SYNC_FAILED: &'static str = "Sync Failed. Check your network or remote settings.";

/// The arguments with which the sync program makes the vault a repository.
pub open spec fn init_steps() -> Seq<Seq<char>> {
    seq!["init"@]
}

/// The arguments of the three runs of the sync program that make a
/// synchronization at the time `stamp`: stage everything, commit with the
/// time in the message, push.
pub open spec fn sync_steps(stamp: Seq<char>) -> Seq<Seq<Seq<char>>> {
    seq![seq!["add"@, "."@], seq!["commit"@, "-m"@, COMMIT_PREFIX@ + stamp], seq!["push"@]]
}

/// The arguments with which the sync program makes the vault a repository.
pub fn init_arguments() -> (args: Vec<String>)
    ensures
        args.deep_view() == init_steps(),
{
    let mut args: Vec<String> = Vec::new();
    args.push("init".to_owned());
    assert(args.deep_view() =~= init_steps());
    args
}

/// The arguments of the runs of the sync program that make a synchronization
/// at the time `stamp`, in the order in which they are to run.
pub fn plan_sync(stamp: &str) -> (steps: Vec<Vec<String>>)
    ensures
        steps.deep_view() == sync_steps(stamp@),
{
    let mut stage: Vec<String> = Vec::new();
    stage.push("add".to_owned());
    stage.push(".".to_owned());
    assert(stage.deep_view() =~= seq!["add"@, "."@]);
    let mut message = COMMIT_PREFIX.to_owned();
    message.append(stamp);
    let mut commit: Vec<String> = Vec::new();
    commit.push("commit".to_owned());
    commit.push("-m".to_owned());
    commit.push(message);
    assert(commit.deep_view() =~= seq!["commit"@, "-m"@, COMMIT_PREFIX@ + stamp@]);
    let mut push: Vec<String> = Vec::new();
    push.push("push".to_owned());
    assert(push.deep_view() =~= seq!["push"@]);
    let mut steps: Vec<Vec<String>> = Vec::new();
    steps.push(stage);
    steps.push(commit);
    steps.push(push);
    assert(steps.deep_view() =~= sync_steps(stamp@));
    steps
}

/// What is reported after the push, by whether it succeeded.
pub fn sync_report(pushed: bool) -> (report: &'static str)
    ensures
        report@ == if pushed {
            SYNC_SUCCEEDED@
        } else {
            SYNC_FAILED@
        },
{
    if pushed {
        SYNC_SUCCEEDED
    } else {
        SYNC_FAILED
    }
}

} // verus!
