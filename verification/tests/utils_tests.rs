use bloi::store::{PathFacts, UserChoice};
use bloi::utils::PathState::{Dir, File, NoExist, Symlink};
use bloi::utils::{
    absolute_to_relative, classify_path, failure_message, get_user_choice, next_states,
    resolve_conflict, store_path_of, store_step, PathState, StoreFailure, StoreStep,
};

fn facts(is_symlink: bool, exists: bool, is_dir: bool) -> PathFacts {
    PathFacts { is_symlink, exists, is_dir, is_file: !is_dir }
}

#[test]
fn dropping_the_first_character() {
    assert_eq!(absolute_to_relative("/etc/hosts"), "etc/hosts");
    assert_eq!(absolute_to_relative("/"), "");
    assert_eq!(absolute_to_relative("éa"), "a");
}

#[test]
fn store_path_of_joins_the_relative_target() {
    assert_eq!(store_path_of("/s/.store/", "/etc/hosts"), "/s/.store/etc/hosts");
}

#[test]
fn classify_looks_at_existence_first() {
    assert_eq!(classify_path(&facts(true, false, false)), PathState::NoExist);
    assert_eq!(classify_path(&facts(true, true, false)), PathState::Symlink);
    assert_eq!(classify_path(&facts(false, true, true)), PathState::Dir);
    assert_eq!(classify_path(&facts(false, true, false)), PathState::File);
    assert_eq!(classify_path(&facts(false, false, false)), PathState::NoExist);
}

#[test]
fn store_steps_follow_the_two_states() {
    let c = UserChoice::NoChoice;
    assert_eq!(store_step(File, Symlink, c), StoreStep::Fail(StoreFailure::SymlinkInStore));
    assert_eq!(store_step(Symlink, File, c), StoreStep::Done);
    assert_eq!(store_step(Symlink, NoExist, c), StoreStep::Fail(StoreFailure::LinkWithoutStore));
    assert_eq!(store_step(Symlink, Dir, c), StoreStep::Fail(StoreFailure::LinkWithoutStore));
    assert_eq!(store_step(File, File, c), StoreStep::Ask);
    assert_eq!(store_step(File, NoExist, c), StoreStep::MoveToStore);
    assert_eq!(store_step(NoExist, NoExist, c), StoreStep::Fail(StoreFailure::NothingAnywhere));
    assert_eq!(store_step(Dir, NoExist, c), StoreStep::StoreNewDir);
    assert_eq!(store_step(NoExist, File, c), StoreStep::LinkToStore);
    assert_eq!(store_step(Dir, File, c), StoreStep::Fail(StoreFailure::DirFileMismatch));
    assert_eq!(store_step(File, Dir, c), StoreStep::Fail(StoreFailure::DirFileMismatch));
    assert_eq!(store_step(Dir, Dir, c), StoreStep::StoreEntries);
    assert_eq!(store_step(NoExist, Dir, c), StoreStep::RestoreDir);
}

#[test]
fn conflicts_are_asked_unless_settled_for_all() {
    assert_eq!(store_step(File, File, UserChoice::TakeStore), StoreStep::Ask);
    assert_eq!(store_step(File, File, UserChoice::TakeTarget), StoreStep::Ask);
    assert_eq!(store_step(File, File, UserChoice::TakeStoreAll), StoreStep::RemoveTarget);
    assert_eq!(store_step(File, File, UserChoice::TakeTargetAll), StoreStep::RemoveStored);
}

#[test]
fn settled_conflicts_go_round_once() {
    assert_eq!(resolve_conflict(UserChoice::TakeStore), StoreStep::RemoveTarget);
    assert_eq!(resolve_conflict(UserChoice::TakeTarget), StoreStep::RemoveStored);
    assert_eq!(resolve_conflict(UserChoice::NoChoice), StoreStep::Fail(StoreFailure::NoChoice));
    let (t, s) = next_states(StoreStep::RemoveTarget).unwrap();
    assert_eq!(store_step(t, s, UserChoice::TakeStore), StoreStep::LinkToStore);
    let (t, s) = next_states(StoreStep::RemoveStored).unwrap();
    assert_eq!(store_step(t, s, UserChoice::TakeTarget), StoreStep::MoveToStore);
    assert_eq!(next_states(StoreStep::MoveToStore), None);
}

#[test]
fn failure_messages_name_the_path() {
    assert_eq!(
        failure_message(StoreFailure::SymlinkInStore, "/t/a", "/s/a"),
        "serious problem symlink in store doesn't make sense\n\"/s/a\""
    );
    assert_eq!(
        failure_message(StoreFailure::DirFileMismatch, "/t/a", "/s/a"),
        "serious problem dir != file mismatch\n\"/t/a\""
    );
    assert_eq!(failure_message(StoreFailure::NoChoice, "/t/a", "/s/a"), "this should not be possible");
}

#[test]
fn legacy_prompt_refuses_with_a_fixed_message() {
    assert_eq!(get_user_choice(" 2\n"), Ok(UserChoice::TakeTarget));
    assert_eq!(get_user_choice("nope"), Err("this is very wrong".to_string()));
}

#[test]
fn failure_message_from_shown_paths() {
    assert_eq!(
        bloi::utils::failure_message_with(StoreFailure::NothingAnywhere, "T", "S"),
        "nothing in target and store mabye old path in config\nT"
    );
    assert_eq!(
        bloi::utils::failure_message(StoreFailure::LinkWithoutStore, "/t/a b", "/s"),
        "this is a hard problem symlink exists but nothing in store serious data loss possible\n\"/t/a b\""
    );
}

#[test]
fn legacy_choice_type_is_the_same() {
    let c: bloi::utils::UserChoice = UserChoice::TakeStoreAll;
    assert_eq!(store_step(File, File, c), StoreStep::RemoveTarget);
}

#[test]
fn copying_a_tree_copies_files_and_directories_only() {
    let f = PathFacts { is_symlink: false, exists: true, is_dir: false, is_file: true };
    let d = PathFacts { is_symlink: false, exists: true, is_dir: true, is_file: false };
    let o = PathFacts { is_symlink: false, exists: true, is_dir: false, is_file: false };
    assert_eq!(bloi::utils::copy_entry_step(&f), bloi::utils::CopyStep::CopyFile);
    assert_eq!(bloi::utils::copy_entry_step(&d), bloi::utils::CopyStep::CopyDir);
    assert_eq!(bloi::utils::copy_entry_step(&o), bloi::utils::CopyStep::Skip);
}
