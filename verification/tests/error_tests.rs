use bloi::error::Error;
use bloi::path_tree::{classify_path, PathTree, PathType};
use bloi::store::PathFacts;

#[test]
fn messages_name_the_error() {
    assert_eq!(Error::NoParent.message(), "NoParent: Directory has no parent");
    assert_eq!(Error::Io("boom".to_string()).message(), "Io: boom");
    assert_eq!(
        Error::EqFileDir("/a".to_string(), "/b".to_string()).message(),
        "EqFileDir: PathTypeError\n/a\n/b"
    );
    assert_eq!(
        Error::NoPossibleUserChoice("x".to_string()).message(),
        "NoPossibleUserChoice: Invalid selection: x"
    );
    assert_eq!(
        Error::GitPotentialConflict.message(),
        "GitPotentialConflict: Found a potential git conflict - merge must be performed by user"
    );
}

fn facts(is_symlink: bool, exists: bool, is_dir: bool) -> PathFacts {
    PathFacts { is_symlink, exists, is_dir, is_file: exists && !is_dir }
}

#[test]
fn tree_nodes_are_classified() {
    assert_eq!(classify_path(&facts(false, true, false)), PathType::File);
    assert_eq!(classify_path(&facts(false, true, true)), PathType::Dir);
    assert_eq!(classify_path(&facts(true, true, false)), PathType::SymLink);
    assert_eq!(classify_path(&facts(false, false, false)), PathType::NoExist);
}

#[test]
fn only_directories_keep_children() {
    let leaf = PathTree::from_probe("/d/f".to_string(), &facts(false, true, false), vec![]);
    let dir = PathTree::from_probe("/d".to_string(), &facts(false, true, true), vec![leaf]);
    assert_eq!(dir.path_type, PathType::Dir);
    assert_eq!(dir.children.len(), 1);
    assert_eq!(dir.children[0].path_type, PathType::File);
    let other = PathTree::from_probe("/l".to_string(), &facts(true, true, false), vec![dir]);
    assert!(other.children.is_empty());
    assert!(!PathTree::wants_children(&facts(true, true, true)));
    assert!(PathTree::wants_children(&facts(false, true, true)));
}

#[test]
fn create_path_tree() {
    let path_tree_file = PathTree::from_probe("/home/zenkazio/Projects/bloi/src/path_tree.rs".to_string(), &facts(false, true, false), vec![]);
    let path_tree_dir = PathTree::from_probe("/home/zenkazio/Projects/bloi/".to_string(), &facts(false, true, true), vec![]);
    let path_tree_symlink = PathTree::from_probe("/home/zenkazio/.config/niri/config.kdl".to_string(), &facts(true, true, false), vec![]);
    let path_tree_noexist = PathTree::from_probe("/home/zenkazio/Projects/bloi/src/schlobo".to_string(), &facts(false, false, false), vec![]);

    assert_eq!(PathType::File, path_tree_file.path_type);
    assert_eq!(PathType::Dir, path_tree_dir.path_type);
    assert_eq!(PathType::SymLink, path_tree_symlink.path_type);
    assert_eq!(PathType::NoExist, path_tree_noexist.path_type);
}
