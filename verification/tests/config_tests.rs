use bloi::cli::validate_path_no_exist;
use bloi::config::{config_file_from_dir, store_dir_from_home, Config};
use bloi::error::Error;
use bloi::text::decimal;

#[test]
fn new_config_is_empty_without_git() {
    let c = Config::new("/h/.store/".to_string());
    assert_eq!(c.store_dir, "/h/.store/");
    assert!(c.files.is_empty());
    assert!(!c.use_git);
}

#[test]
fn switching_git_twice_restores_it() {
    let mut c = Config::new("/s".to_string());
    c.switch_git();
    assert!(c.use_git);
    c.switch_git();
    assert!(!c.use_git);
}

#[test]
fn adding_and_removing_entries() {
    let mut c = Config::new("/s".to_string());
    let t = c.add_file("/home/u", "notes", "n".to_string());
    assert_eq!(t, "/home/u/notes");
    c.add_file("/home/u", "/etc/hosts", "h".to_string());
    assert_eq!(c.files, vec![("/home/u/notes".to_string(), "n".to_string()), ("/etc/hosts".to_string(), "h".to_string())]);
    assert_eq!(c.remove_file(1), ("/home/u/notes".to_string(), "n".to_string()));
    assert_eq!(c.files, vec![("/etc/hosts".to_string(), "h".to_string())]);
}

#[test]
fn store_dir_can_change() {
    let mut c = Config::new("/s".to_string());
    c.change_store_dir("/t".to_string());
    assert_eq!(c.store_dir, "/t");
}

#[test]
fn listing_numbers_entries_from_one() {
    let mut c = Config::new("/s".to_string());
    c.files.push(("a".to_string(), "b".to_string()));
    c.files.push(("/abs".to_string(), "d e".to_string()));
    assert_eq!(
        c.list_files(),
        vec!["1: \"/s/a\" <-> \"/s/b\"".to_string(), "2: \"/abs\" <-> \"/s/d e\"".to_string()]
    );
}

#[test]
fn decimal_numbers() {
    assert_eq!(decimal(0), "0");
    assert_eq!(decimal(7), "7");
    assert_eq!(decimal(1234), "1234");
    assert_eq!(decimal(usize::MAX), usize::MAX.to_string());
}

#[test]
fn store_dir_lies_under_the_home_dir() {
    assert_eq!(store_dir_from_home(Some("/home/u".to_string())), Ok("/home/u/.store/".to_string()));
    assert_eq!(store_dir_from_home(None), Err(Error::HomeDirNotFound));
}

#[test]
fn config_file_lies_under_the_config_dir() {
    assert_eq!(
        config_file_from_dir(Some("/home/u/.config".to_string())),
        Ok("/home/u/.config/bloi/config.json".to_string())
    );
    assert_eq!(config_file_from_dir(None), Err(Error::ConfigDirNotFound));
}

#[test]
fn path_arguments_are_taken_as_they_are() {
    assert_eq!(validate_path_no_exist("no/such/path"), Ok("no/such/path".to_string()));
}

#[test]
fn listing_line_from_shown_paths() {
    assert_eq!(bloi::config::listing_line(12, "\"a\"", "\"b\""), "12: \"a\" <-> \"b\"");
}

#[test]
fn default_paths_end_as_documented() {
    if let Ok(p) = bloi::config::get_default_store_path() {
        assert!(p.ends_with(".store/"));
    }
    if let Ok(p) = bloi::config::get_full_config_file_path() {
        assert!(p.ends_with("bloi/config.json"));
    }
}
