use bloi::error::Error;
use bloi::store::{
    answer_choice, check_link, classify_path, get_user_choice, parse_choice, remove_special,
    store_path_for, tolerated_eq_error, EqAction, EqPhase, Equalizer, PathFacts, PathType,
    Removal, UserChoice,
};

fn facts(is_symlink: bool, exists: bool, is_dir: bool, is_file: bool) -> PathFacts {
    PathFacts { is_symlink, exists, is_dir, is_file }
}

fn s(x: &str) -> String {
    x.to_string()
}

#[test]
fn classify_reports_symlinks_first() {
    assert_eq!(
        classify_path(s("/t"), facts(true, false, false, false), s("/s/t")),
        Ok(PathType::SymLink(s("/t"), s("/s/t")))
    );
    assert_eq!(
        classify_path(s("/t"), facts(true, true, true, false), s("/d")),
        Ok(PathType::SymLink(s("/t"), s("/d")))
    );
}

#[test]
fn classify_directories_files_and_missing_paths() {
    assert_eq!(classify_path(s("/d"), facts(false, true, true, false), s("")), Ok(PathType::Dir(s("/d"))));
    assert_eq!(classify_path(s("/f"), facts(false, true, false, true), s("")), Ok(PathType::File(s("/f"))));
    assert_eq!(classify_path(s("/n"), facts(false, false, false, false), s("")), Ok(PathType::NoExist(s("/n"))));
}

#[test]
fn classify_refuses_other_existing_paths() {
    assert_eq!(
        classify_path(s("/dev/null"), facts(false, true, false, false), s("")),
        Err(Error::PathNotClassified(s("/dev/null")))
    );
}

#[test]
fn check_link_compares_the_link_target_by_components() {
    let link = PathType::SymLink(s("/home/u/.vimrc"), s("/s/home/u/.vimrc"));
    assert!(check_link(&link, "/s/home/u/.vimrc"));
    assert!(check_link(&link, "/s//home/u/.vimrc/"));
    assert!(!check_link(&link, "/s/home/u/.bashrc"));
    assert!(!check_link(&PathType::File(s("/s/home/u/.vimrc")), "/s/home/u/.vimrc"));
}

#[test]
fn store_path_mirrors_the_target_under_the_store() {
    assert_eq!(store_path_for("/home/u/.vimrc", "/s/.store/"), "/s/.store/home/u/.vimrc");
    assert_eq!(store_path_for("notes/x", "/s/.store"), "/s/.store/notes/x");
}

#[test]
fn only_some_equalizing_errors_are_tolerated() {
    assert!(tolerated_eq_error(&Error::EqSymLinkWithoutSource(s("a"))));
    assert!(tolerated_eq_error(&Error::EqNoExistDirError(s("a"), s("b"))));
    assert!(tolerated_eq_error(&Error::EqSymLinkSymLink(s("a"), s("b"))));
    assert!(!tolerated_eq_error(&Error::EqFileDir(s("a"), s("b"))));
    assert!(!tolerated_eq_error(&Error::EqFileDir(s("b"), s("a"))));
    assert!(!tolerated_eq_error(&Error::EqNoExistNoExist(s("a"), s("b"))));
    assert!(!tolerated_eq_error(&Error::Io(s("denied"))));
    assert!(!tolerated_eq_error(&Error::NoPossibleUserChoice(s("9"))));
}

#[test]
fn removal_depends_on_the_kind() {
    assert_eq!(remove_special(&PathType::File(s("a"))), Removal::RemoveFile);
    assert_eq!(remove_special(&PathType::SymLink(s("a"), s("b"))), Removal::RemoveFile);
    assert_eq!(remove_special(&PathType::Dir(s("a"))), Removal::RemoveDirAll);
    assert_eq!(remove_special(&PathType::NoExist(s("a"))), Removal::RemoveDirAll);
}

#[test]
fn answers_select_choices() {
    assert_eq!(parse_choice(""), Some(UserChoice::TakeStore));
    assert_eq!(parse_choice("1"), Some(UserChoice::TakeStore));
    assert_eq!(parse_choice("2"), Some(UserChoice::TakeTarget));
    assert_eq!(parse_choice("3"), Some(UserChoice::TakeStoreAll));
    assert_eq!(parse_choice("4"), Some(UserChoice::TakeTargetAll));
    assert_eq!(parse_choice("5"), None);
    assert_eq!(parse_choice("12"), None);
}

#[test]
fn typed_lines_are_trimmed_before_reading() {
    assert_eq!(get_user_choice("\n"), Ok(UserChoice::TakeStore));
    assert_eq!(get_user_choice("  3 \n"), Ok(UserChoice::TakeStoreAll));
    assert_eq!(get_user_choice("4\r\n"), Ok(UserChoice::TakeTargetAll));
}

#[test]
fn other_answers_are_refused_with_the_answer() {
    assert_eq!(get_user_choice(" yes \n"), Err(Error::NoPossibleUserChoice(s("yes"))));
    assert_eq!(answer_choice("0"), Err(Error::NoPossibleUserChoice(s("0"))));
}

#[test]
fn missing_side_is_copied() {
    let mut eq = Equalizer::new(s("/t/a"), s("/s/a"), UserChoice::NoChoice);
    assert_eq!(eq.current_pair(), Some((s("/t/a"), s("/s/a"))));
    let act = eq.on_classified(PathType::File(s("/t/a")), PathType::NoExist(s("/s/a")));
    assert_eq!(act, EqAction::CopyToMissing { from: s("/t/a"), to: s("/s/a") });
    assert_eq!(eq.current_pair(), None);

    let mut eq = Equalizer::new(s("/t/a"), s("/s/a"), UserChoice::NoChoice);
    let act = eq.on_classified(PathType::NoExist(s("/t/a")), PathType::File(s("/s/a")));
    assert_eq!(act, EqAction::CopyToMissing { from: s("/s/a"), to: s("/t/a") });
}

#[test]
fn link_beside_a_file_is_replaced() {
    let mut eq = Equalizer::new(s("/t/a"), s("/s/a"), UserChoice::NoChoice);
    let act = eq.on_classified(PathType::SymLink(s("/t/a"), s("/x")), PathType::File(s("/s/a")));
    assert_eq!(act, EqAction::ReplaceLink { from: s("/s/a"), link: s("/t/a") });
    assert_eq!(eq.current_pair(), None);
}

#[test]
fn hopeless_pairs_fail_and_stop() {
    let cases = vec![
        (PathType::SymLink(s("a"), s("x")), PathType::NoExist(s("b")), Error::EqSymLinkWithoutSource(s("a"))),
        (PathType::NoExist(s("a")), PathType::SymLink(s("b"), s("x")), Error::EqSymLinkWithoutSource(s("b"))),
        (PathType::SymLink(s("a"), s("x")), PathType::SymLink(s("b"), s("y")), Error::EqSymLinkSymLink(s("a"), s("b"))),
        (PathType::NoExist(s("a")), PathType::NoExist(s("b")), Error::EqNoExistNoExist(s("a"), s("b"))),
        (PathType::File(s("a")), PathType::Dir(s("b")), Error::EqFileDir(s("a"), s("b"))),
        (PathType::Dir(s("a")), PathType::File(s("b")), Error::EqFileDir(s("a"), s("b"))),
    ];
    for (t1, t2, e) in cases {
        let mut eq = Equalizer::new(s("a"), s("b"), UserChoice::NoChoice);
        assert_eq!(eq.on_classified(t1, t2), EqAction::Fail(e));
        assert_eq!(eq.current_pair(), None);
    }
}

#[test]
fn link_beside_a_directory_is_removed_and_the_pair_retried() {
    let mut eq = Equalizer::new(s("a"), s("b"), UserChoice::NoChoice);
    let act = eq.on_classified(PathType::Dir(s("a")), PathType::SymLink(s("b"), s("x")));
    assert_eq!(act, EqAction::RemoveLink { link: s("b") });
    assert_eq!(eq.current_pair(), Some((s("a"), s("b"))));
}

#[test]
fn conflict_is_asked_then_settled_and_copied() {
    let mut eq = Equalizer::new(s("/t/a"), s("/s/a"), UserChoice::NoChoice);
    let act = eq.on_classified(PathType::File(s("/t/a")), PathType::File(s("/s/a")));
    assert_eq!(act, EqAction::Ask { shown: s("/t/a") });
    assert_eq!(eq.phase, EqPhase::Answer { first: s("/t/a"), second: s("/s/a") });
    let act = eq.on_answer("\n").unwrap();
    assert_eq!(act, EqAction::RemoveFile { path: s("/t/a") });
    assert_eq!(eq.choice, UserChoice::TakeStore);
    assert_eq!(eq.current_pair(), Some((s("/t/a"), s("/s/a"))));
    let act = eq.on_classified(PathType::NoExist(s("/t/a")), PathType::File(s("/s/a")));
    assert_eq!(act, EqAction::CopyToMissing { from: s("/s/a"), to: s("/t/a") });
    assert_eq!(eq.current_pair(), None);
}

#[test]
fn answer_for_all_is_not_asked_again() {
    let mut eq = Equalizer::new(s("/t/a"), s("/s/a"), UserChoice::NoChoice);
    eq.on_classified(PathType::File(s("/t/a")), PathType::File(s("/s/a")));
    assert_eq!(eq.on_answer("4\n"), Ok(EqAction::RemoveFile { path: s("/s/a") }));
    assert_eq!(eq.choice, UserChoice::TakeTargetAll);
    let act = eq.on_classified(PathType::File(s("/t/a")), PathType::File(s("/s/a")));
    assert_eq!(act, EqAction::RemoveFile { path: s("/s/a") });

    let mut eq = Equalizer::new(s("/t/a"), s("/s/a"), UserChoice::TakeStoreAll);
    let act = eq.on_classified(PathType::File(s("/t/a")), PathType::File(s("/s/a")));
    assert_eq!(act, EqAction::RemoveFile { path: s("/t/a") });
}

#[test]
fn a_plain_choice_is_asked_again() {
    let mut eq = Equalizer::new(s("a"), s("b"), UserChoice::TakeTarget);
    let act = eq.on_classified(PathType::File(s("a")), PathType::File(s("b")));
    assert_eq!(act, EqAction::Ask { shown: s("a") });
}

#[test]
fn a_refused_answer_ends_equalizing() {
    let mut eq = Equalizer::new(s("a"), s("b"), UserChoice::NoChoice);
    eq.on_classified(PathType::File(s("a")), PathType::File(s("b")));
    assert_eq!(eq.on_answer("maybe\n"), Err(Error::NoPossibleUserChoice(s("maybe"))));
    assert_eq!(eq.current_pair(), None);
    assert_eq!(eq.choice, UserChoice::NoChoice);
}

#[test]
fn directories_are_merged_by_their_children() {
    let mut eq = Equalizer::new(s("/t/d"), s("/s/d"), UserChoice::NoChoice);
    let act = eq.on_classified(PathType::Dir(s("/t/d")), PathType::NoExist(s("/s/d")));
    assert_eq!(act, EqAction::MakeDirs { first: s("/t/d"), second: s("/s/d") });
    assert_eq!(eq.phase, EqPhase::Children);
    eq.on_children(&vec![s("x"), s("y")], &vec![s("y"), s("z")]);
    assert_eq!(eq.phase, EqPhase::Classify);
    assert_eq!(
        eq.pending,
        vec![
            (s("/t/d/x"), s("/s/d/x")),
            (s("/t/d/y"), s("/s/d/y")),
            (s("/t/d/z"), s("/s/d/z")),
        ]
    );
    assert_eq!(eq.current_pair(), Some((s("/t/d/z"), s("/s/d/z"))));
}

#[test]
fn swapping_the_paths_mirrors_the_step() {
    let mut eq = Equalizer::new(s("a"), s("b"), UserChoice::NoChoice);
    let act = eq.on_classified(PathType::NoExist(s("a")), PathType::Dir(s("b")));
    assert_eq!(act, EqAction::MakeDirs { first: s("a"), second: s("b") });
    let mut eq = Equalizer::new(s("b"), s("a"), UserChoice::NoChoice);
    let act = eq.on_classified(PathType::Dir(s("b")), PathType::NoExist(s("a")));
    assert_eq!(act, EqAction::MakeDirs { first: s("b"), second: s("a") });
}

#[test]
fn a_file_facing_a_directory_stops_storing() {
    let mut eq = Equalizer::new(s("/t/a"), s("/s/a"), UserChoice::NoChoice);
    match eq.on_classified(PathType::File(s("/t/a")), PathType::Dir(s("/s/a"))) {
        EqAction::Fail(e) => assert!(!tolerated_eq_error(&e)),
        other => panic!("unexpected step {:?}", other),
    }
    let mut eq = Equalizer::new(s("/t/a"), s("/s/a"), UserChoice::NoChoice);
    match eq.on_classified(PathType::Dir(s("/t/a")), PathType::File(s("/s/a"))) {
        EqAction::Fail(e) => assert!(!tolerated_eq_error(&e)),
        other => panic!("unexpected step {:?}", other),
    }
}

#[test]
fn a_relative_link_is_not_a_link_to_an_absolute_path() {
    let link = PathType::SymLink(s("/t/f"), s("f"));
    assert!(!check_link(&link, "/d/f"));
}

#[test]
fn spaces_around_an_answer_are_ignored() {
    assert_eq!(get_user_choice(" 4 "), Ok(UserChoice::TakeTargetAll));
    assert_eq!(get_user_choice("\u{3000}2\u{A0}"), Ok(UserChoice::TakeTarget));
}
