use vstd::prelude::*;

use crate::paths::{joined, path_join};
pub use crate::store::UserChoice;

use crate::store::{choice_for, parse_choice, PathFacts};
use crate::text::{path_debug, path_debug_text, trim_text, trimmed};

verus! {

/// What a path is, for the step-by-step storing routine.
#[derive(Debug, Clone, Copy, PartialEq, Eq, Structural)]
pub enum PathState {
    Symlink,
    NoExist,
    File,
    Dir,
}

/// A path that does not exist (a dangling symlink included) is `NoExist`; an
/// existing symlink is `Symlink`, then directories, then everything else as files.
pub open spec fn state_of(facts: PathFacts) -> PathState {
    if !facts.exists {
        PathState::NoExist
    } else if facts.is_symlink {
        PathState::Symlink
    } else if facts.is_dir {
        PathState::Dir
    } else {
        PathState::File
    }
}

/// Decides what a path is from the probe's report.
pub fn classify_path(facts: &PathFacts) -> (res: PathState)
    ensures
        res == state_of(*facts),
{
    if facts.exists {
        if facts.is_symlink {
            PathState::Symlink
        } else if facts.is_dir {
            PathState::Dir
        } else {
            PathState::File
        }
    } else {
        PathState::NoExist
    }
}

/// Makes an absolute path relative by dropping its first character, the root.
pub fn absolute_to_relative(absolute_path: &str) -> (res: String)
    requires
        absolute_path@.len() > 0,
    ensures
        res@ == absolute_path@.drop_first(),
{
    let n: usize = absolute_path.unicode_len();
    let rest = absolute_path.substring_char(1, n);
    assert(rest@ =~= absolute_path@.drop_first());
    String::from_str(rest)
}

/// Where `target` is kept under `store_dir`.
pub fn store_path_of(store_dir: &str, target: &str) -> (res: String)
    requires
        target@.len() > 0,
    ensures
        res@ == joined(store_dir@, target@.drop_first()),
{
    let rel = absolute_to_relative(target);
    path_join(store_dir, rel.as_str())
}

/// Why storing an entry stopped.
#[derive(Debug, Clone, Copy, PartialEq, Eq, Structural)]
pub enum StoreFailure {
    /// The store holds a symlink.
    SymlinkInStore,
    /// The target is a symlink but the store holds no file for it.
    LinkWithoutStore,
    /// Neither the target nor the store holds anything.
    NothingAnywhere,
    /// One side is a directory and the other a file.
    DirFileMismatch,
    /// A conflict remained without a choice.
    NoChoice,
}

/// One step of storing an entry.
#[derive(Debug, Clone, Copy, PartialEq, Eq, Structural)]
pub enum StoreStep {
    /// The target already is a symlink to the stored file.
    Done,
    /// Stop with this failure.
    Fail(StoreFailure),
    /// Both are files: ask which one to keep, then `resolve_conflict`.
    Ask,
    /// Remove the target file and go on as if it did not exist.
    RemoveTarget,
    /// Remove the stored file and go on as if it did not exist.
    RemoveStored,
    /// Move the target file into the store and link it back.
    MoveToStore,
    /// Create the store directory, then store each entry of the target directory.
    StoreNewDir,
    /// Link the target to the stored file.
    LinkToStore,
    /// Store each entry of the target directory.
    StoreEntries,
    /// Copy the stored directory to the target, delete it from the store, and
    /// store the target again.
    RestoreDir,
}

/// How a conflict between two files is settled under choice `c`.
pub open spec fn resolution(c: UserChoice) -> StoreStep {
    match c {
        UserChoice::TakeStore | UserChoice::TakeStoreAll => StoreStep::RemoveTarget,
        UserChoice::TakeTarget | UserChoice::TakeTargetAll => StoreStep::RemoveStored,
        UserChoice::NoChoice => StoreStep::Fail(StoreFailure::NoChoice),
    }
}

/// The step that the states of the target and of its stored copy call for.
pub open spec fn step_for(target: PathState, stored: PathState, c: UserChoice) -> StoreStep {
    match (target, stored) {
        (_, PathState::Symlink) => StoreStep::Fail(StoreFailure::SymlinkInStore),
        (PathState::Symlink, PathState::File) => StoreStep::Done,
        (PathState::Symlink, _) => StoreStep::Fail(StoreFailure::LinkWithoutStore),
        (PathState::File, PathState::File) => if c is NoChoice || c is TakeStore || c is TakeTarget {
            StoreStep::Ask
        } else {
            resolution(c)
        },
        (PathState::File, PathState::NoExist) => StoreStep::MoveToStore,
        (PathState::NoExist, PathState::NoExist) => StoreStep::Fail(StoreFailure::NothingAnywhere),
        (PathState::Dir, PathState::NoExist) => StoreStep::StoreNewDir,
        (PathState::NoExist, PathState::File) => StoreStep::LinkToStore,
        (PathState::Dir, PathState::File) => StoreStep::Fail(StoreFailure::DirFileMismatch),
        (PathState::File, PathState::Dir) => StoreStep::Fail(StoreFailure::DirFileMismatch),
        (PathState::Dir, PathState::Dir) => StoreStep::StoreEntries,
        (PathState::NoExist, PathState::Dir) => StoreStep::RestoreDir,
    }
}

/// Decides the next step of storing an entry.
pub fn store_step(target: PathState, stored: PathState, choice: UserChoice) -> (res: StoreStep)
    ensures
        res == step_for(target, stored, choice),
{
    match (target, stored) {
        (_, PathState::Symlink) => StoreStep::Fail(StoreFailure::SymlinkInStore),
        (PathState::Symlink, PathState::File) => StoreStep::Done,
        (PathState::Symlink, _) => StoreStep::Fail(StoreFailure::LinkWithoutStore),
        (PathState::File, PathState::File) => match choice {
            UserChoice::NoChoice | UserChoice::TakeStore | UserChoice::TakeTarget => StoreStep::Ask,
            _ => resolve_conflict(choice),
        },
        (PathState::File, PathState::NoExist) => StoreStep::MoveToStore,
        (PathState::NoExist, PathState::NoExist) => StoreStep::Fail(StoreFailure::NothingAnywhere),
        (PathState::Dir, PathState::NoExist) => StoreStep::StoreNewDir,
        (PathState::NoExist, PathState::File) => StoreStep::LinkToStore,
        (PathState::Dir, PathState::File) => StoreStep::Fail(StoreFailure::DirFileMismatch),
        (PathState::File, PathState::Dir) => StoreStep::Fail(StoreFailure::DirFileMismatch),
        (PathState::Dir, PathState::Dir) => StoreStep::StoreEntries,
        (PathState::NoExist, PathState::Dir) => StoreStep::RestoreDir,
    }
}

/// How a conflict is settled once the choice is known.
pub fn resolve_conflict(choice: UserChoice) -> (res: StoreStep)
    ensures
        res == resolution(choice),
{
    match choice {
        UserChoice::TakeStore | UserChoice::TakeStoreAll => StoreStep::RemoveTarget,
        UserChoice::TakeTarget | UserChoice::TakeTargetAll => StoreStep::RemoveStored,
        UserChoice::NoChoice => StoreStep::Fail(StoreFailure::NoChoice),
    }
}

/// The states that storing goes on with after a step that removed a file.
pub open spec fn states_after(step: StoreStep) -> Option<(PathState, PathState)> {
    match step {
        StoreStep::RemoveTarget => Some((PathState::NoExist, PathState::File)),
        StoreStep::RemoveStored => Some((PathState::File, PathState::NoExist)),
        _ => None,
    }
}

/// The states that storing goes on with after `step`, `None` where the step
/// ends this round.
pub fn next_states(step: StoreStep) -> (res: Option<(PathState, PathState)>)
    ensures
        res == states_after(step),
{
    match step {
        StoreStep::RemoveTarget => Some((PathState::NoExist, PathState::File)),
        StoreStep::RemoveStored => Some((PathState::File, PathState::NoExist)),
        _ => None,
    }
}

/// Storing goes round at most once more: after a settled conflict the entry is
/// linked to the stored file, or moved into the store, and that ends the round.
pub proof fn lemma_store_goes_round_at_most_once(c: UserChoice, d: UserChoice)
    ensures
        resolution(c) is RemoveTarget ==> step_for(PathState::NoExist, PathState::File, d)
            == StoreStep::LinkToStore,
        resolution(c) is RemoveStored ==> step_for(PathState::File, PathState::NoExist, d)
            == StoreStep::MoveToStore,
        forall|t: PathState, s: PathState|
            states_after(#[trigger] step_for(t, s, c)) matches Some((t2, s2)) ==> states_after(
                step_for(t2, s2, d),
            ) is None,
{
}

/// The message that a failure of storing is reported with.
pub open spec fn failure_text(f: StoreFailure, target: Seq<char>, stored: Seq<char>) -> Seq<char> {
    match f {
        StoreFailure::SymlinkInStore => "serious problem symlink in store doesn't make sense\n"@
            + path_debug_text(stored),
        StoreFailure::LinkWithoutStore =>
            "this is a hard problem symlink exists but nothing in store serious data loss possible\n"@
            + path_debug_text(target),
        StoreFailure::NothingAnywhere => "nothing in target and store mabye old path in config\n"@
            + path_debug_text(target),
        StoreFailure::DirFileMismatch => "serious problem dir != file mismatch\n"@
            + path_debug_text(target),
        StoreFailure::NoChoice => "this should not be possible"@,
    }
}

/// The message of a failure, given how the target and the stored path are shown.
pub open spec fn failure_text_with(f: StoreFailure, shown_target: Seq<char>, shown_stored: Seq<
    char,
>) -> Seq<char> {
    match f {
        StoreFailure::SymlinkInStore => "serious problem symlink in store doesn't make sense\n"@
            + shown_stored,
        StoreFailure::LinkWithoutStore =>
            "this is a hard problem symlink exists but nothing in store serious data loss possible\n"@
            + shown_target,
        StoreFailure::NothingAnywhere => "nothing in target and store mabye old path in config\n"@
            + shown_target,
        StoreFailure::DirFileMismatch => "serious problem dir != file mismatch\n"@ + shown_target,
        StoreFailure::NoChoice => "this should not be possible"@,
    }
}

/// The message of a failure, given the target and the stored path as they are
/// shown (quoted, as `{:?}` prints a path).
pub fn failure_message_with(f: StoreFailure, shown_target: &str, shown_stored: &str) -> (res: String)
    ensures
        res@ == failure_text_with(f, shown_target@, shown_stored@),
{
    match f {
        StoreFailure::SymlinkInStore => String::from_str(
            "serious problem symlink in store doesn't make sense\n",
        ).concat(shown_stored),
        StoreFailure::LinkWithoutStore => String::from_str(
            "this is a hard problem symlink exists but nothing in store serious data loss possible\n",
        ).concat(shown_target),
        StoreFailure::NothingAnywhere => String::from_str(
            "nothing in target and store mabye old path in config\n",
        ).concat(shown_target),
        StoreFailure::DirFileMismatch => String::from_str(
            "serious problem dir != file mismatch\n",
        ).concat(shown_target),
        StoreFailure::NoChoice => String::from_str("this should not be possible"),
    }
}

/// The message that a failure of storing `target` (kept at `stored`) is reported with.
pub fn failure_message(f: StoreFailure, target: &str, stored: &str) -> (res: String)
    ensures
        res@ == failure_text(f, target@, stored@),
{
    let shown_target = path_debug(target);
    let shown_stored = path_debug(stored);
    failure_message_with(f, shown_target.as_str(), shown_stored.as_str())
}

/// The choice that a line typed at the conflict prompt selects, after trimming;
/// any other answer is refused with a message.
pub fn get_user_choice(line: &str) -> (res: Result<UserChoice, String>)
    ensures
        match res {
            Ok(c) => choice_for(trimmed(line@)) == Some(c),
            Err(m) => choice_for(trimmed(line@)) is None && m@ == "this is very wrong"@,
        },
{
    let answer = trim_text(line);
    match parse_choice(answer.as_str()) {
        Some(c) => Ok(c),
        None => Err(String::from_str("this is very wrong")),
    }
}

} // verus!

verus! {

/// What copying a directory tree does with one of its entries.
#[derive(Debug, Clone, Copy, PartialEq, Eq, Structural)]
pub enum CopyStep {
    /// Copy the file.
    CopyFile,
    /// Copy the directory with everything in it.
    CopyDir,
    /// Leave the entry out: it is neither a file nor a directory.
    Skip,
}

/// Files (symlinks to files included) are copied, then directories; anything
/// else is left out.
pub fn copy_entry_step(facts: &PathFacts) -> (res: CopyStep)
    ensures
        res == (if facts.is_file {
            CopyStep::CopyFile
        } else if facts.is_dir {
            CopyStep::CopyDir
        } else {
            CopyStep::Skip
        }),
{
    if facts.is_file {
        CopyStep::CopyFile
    } else if facts.is_dir {
        CopyStep::CopyDir
    } else {
        CopyStep::Skip
    }
}

} // verus!
