use vstd::prelude::*;

verus! {

/// The command line: one subcommand.
#[derive(Debug, PartialEq, Eq)]
pub struct Cli {
    pub command: Commands,
}

/// What the tool is asked to do.
#[derive(Debug, PartialEq, Eq)]
pub enum Commands {
    /// Add a file or directory to be managed.
    Add { target_path: String, path_in_store: String },
    /// Stop managing the entry at a position of the list (counted from 1).
    Remove { pos: usize },
    /// Change the directory where files are stored.
    ChangeStoreDir { store_path: String },
    /// List the managed files and directories.
    List,
    /// Copy managed files to the store and replace them with symlinks.
    Store,
    /// Toggle the git backup of the store.
    Git,
}

/// Accepts any path argument as it is, existing or not.
pub fn validate_path_no_exist(s: &str) -> (res: Result<String, String>)
    ensures
        res matches Ok(p) && p@ == s@,
{
    Ok(String::from_str(s))
}

} // verus!
