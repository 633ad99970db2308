use bloi::error::Error;
use bloi::git::{commit_message, conflict_verdict, conflicting_files, potential_conflicts, split_lines};

fn v(xs: &[&str]) -> Vec<String> {
    xs.iter().map(|x| x.to_string()).collect()
}

#[test]
fn lines_are_split_at_newlines() {
    assert_eq!(split_lines("a\nb\r\nc"), v(&["a", "b", "c"]));
    assert_eq!(split_lines("a\n"), v(&["a"]));
    assert_eq!(split_lines(""), v(&[]));
    assert_eq!(split_lines("\n"), v(&[""]));
    assert_eq!(split_lines("a\n\nb"), v(&["a", "", "b"]));
    assert_eq!(split_lines("x\r"), v(&["x\r"]));
}

#[test]
fn conflicts_are_the_files_changed_on_both_sides() {
    assert_eq!(potential_conflicts("a\nb\nc\n", "c\nb\nd"), v(&["b", "c"]));
    assert_eq!(potential_conflicts("a\na\n", "a\n"), v(&["a"]));
    assert_eq!(potential_conflicts("a\n", "b\n"), v(&[]));
    assert_eq!(conflicting_files(&v(&["x", "y"]), &v(&["y", "x"])), v(&["x", "y"]));
}

#[test]
fn only_no_conflict_lets_storing_go_on() {
    assert_eq!(conflict_verdict(&v(&[])), Ok(()));
    assert_eq!(conflict_verdict(&v(&["a"])), Err(Error::GitPotentialConflict));
}

#[test]
fn commit_message_ends_with_the_trimmed_date() {
    assert_eq!(
        commit_message("Mon Jan  1 10:00:00 UTC 2024\n"),
        "Automatic backup created by bloi\nMon Jan  1 10:00:00 UTC 2024"
    );
}

#[test]
fn commit_message_with_a_given_date() {
    assert_eq!(
        bloi::git::commit_message_with_date("today"),
        "Automatic backup created by bloi\ntoday"
    );
}

#[test]
fn unicode_text_is_split_by_characters() {
    assert_eq!(split_lines("é\nü\u{2003}x"), v(&["é", "ü\u{2003}x"]));
}
