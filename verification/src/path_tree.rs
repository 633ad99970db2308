use vstd::prelude::*;

use crate::store::PathFacts;

verus! {

/// What a node of a path tree is on disk.
#[derive(Debug, Clone, Copy, PartialEq, Eq, Structural)]
pub enum PathType {
    Dir,
    File,
    SymLink,
    NoExist,
}

/// An existing symlink is `SymLink`, then directories, then other existing paths
/// as files; a path that does not exist (a dangling symlink included) is `NoExist`.
pub open spec fn type_of(facts: PathFacts) -> PathType {
    if !facts.exists {
        PathType::NoExist
    } else if facts.is_symlink {
        PathType::SymLink
    } else if facts.is_dir {
        PathType::Dir
    } else {
        PathType::File
    }
}

/// Decides what a path is from the probe's report.
pub fn classify_path(facts: &PathFacts) -> (res: PathType)
    ensures
        res == type_of(*facts),
{
    if facts.exists {
        if facts.is_symlink {
            PathType::SymLink
        } else if facts.is_dir {
            PathType::Dir
        } else {
            PathType::File
        }
    } else {
        PathType::NoExist
    }
}

/// A path with what it is and, for a directory, the trees of its entries.
#[derive(Debug)]
pub struct PathTree {
    pub root: String,
    pub children: Vec<PathTree>,
    pub path_type: PathType,
}

impl PathTree {
    /// The node for `root`, classified from the probe's report. Only a directory
    /// keeps the subtrees it is given; every other node is a leaf.
    pub fn from_probe(root: String, facts: &PathFacts, children: Vec<PathTree>) -> (res: PathTree)
        ensures
            res.root == root,
            res.path_type == type_of(*facts),
            res.path_type == PathType::Dir ==> res.children@ == children@,
            res.path_type != PathType::Dir ==> res.children@.len() == 0,
    {
        let path_type = classify_path(facts);
        match path_type {
            PathType::Dir => PathTree { root, children, path_type },
            _ => PathTree { root, children: Vec::new(), path_type },
        }
    }

    /// Whether the entries of `facts`' path are to be read: only those of a
    /// directory are.
    pub fn wants_children(facts: &PathFacts) -> (res: bool)
        ensures
            res == (type_of(*facts) == PathType::Dir),
    {
        match classify_path(facts) {
            PathType::Dir => true,
            _ => false,
        }
    }
}

} // verus!
