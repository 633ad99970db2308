use vstd::prelude::*;

use crate::error::Error;
use crate::paths::{joined, path_join};
use crate::text::{decimal, decimal_text, path_debug, path_debug_text};

verus! {

/// What the tool remembers between runs: where the store is, the managed entries
/// (each a target path and its path in the store) and whether git backs the
/// store.
#[derive(Debug)]
pub struct Config {
    pub store_dir: String,
    pub files: Vec<(String, String)>,
    pub use_git: bool,
}

/// The line that lists entry number `pos` (counted from 1): both of its paths
/// taken under the store directory.
pub open spec fn entry_line(pos: nat, store_dir: Seq<char>, target: Seq<char>, stored: Seq<char>) -> Seq<
    char,
> {
    decimal_text(pos) + ": "@ + path_debug_text(joined(store_dir, target)) + " <-> "@
        + path_debug_text(joined(store_dir, stored))
}

/// The listing line of entry number `pos`, given how its two paths are shown.
pub fn listing_line(pos: usize, shown_target: &str, shown_stored: &str) -> (res: String)
    ensures
        res@ == decimal_text(pos as nat) + ": "@ + shown_target@ + " <-> "@ + shown_stored@,
{
    let mut line = decimal(pos);
    line.append(": ");
    line.append(shown_target);
    line.append(" <-> ");
    line.append(shown_stored);
    line
}

/// Managing an entry and then removing the last entry gives back the list of
/// entries it started from.
pub proof fn lemma_remove_undoes_add(files: Seq<(String, String)>, entry: (String, String))
    ensures
        files.push(entry).remove(files.len() as int) == files,
        files.push(entry)[files.len() as int] == entry,
{
    assert(files.push(entry).remove(files.len() as int) =~= files);
}

impl Config {
    /// The configuration written on first use: no entries, git off.
    pub fn new(store_dir: String) -> (res: Config)
        ensures
            res.store_dir == store_dir,
            res.files@.len() == 0,
            !res.use_git,
    {
        Config { store_dir, files: Vec::new(), use_git: false }
    }

    /// Turns the git backup on or off.
    pub fn switch_git(&mut self)
        ensures
            final(self).use_git == !old(self).use_git,
            final(self).store_dir == old(self).store_dir,
            final(self).files@ == old(self).files@,
    {
        self.use_git = !self.use_git;
    }

    /// Manages `target_path`, taken relative to `current_dir`, kept at
    /// `path_in_store`; returns the target's full path.
    pub fn add_file(&mut self, current_dir: &str, target_path: &str, path_in_store: String) -> (res:
        String)
        ensures
            res@ == joined(current_dir@, target_path@),
            final(self).files@ == old(self).files@.push((res, path_in_store)),
            final(self).store_dir == old(self).store_dir,
            final(self).use_git == old(self).use_git,
    {
        let target = path_join(current_dir, target_path);
        self.files.push((target.clone(), path_in_store));
        target
    }

    /// Stops managing entry number `pos` (counted from 1) and returns it.
    pub fn remove_file(&mut self, pos: usize) -> (res: (String, String))
        requires
            1 <= pos <= old(self).files@.len(),
        ensures
            res == old(self).files@[pos - 1],
            final(self).files@ == old(self).files@.remove(pos - 1),
            final(self).store_dir == old(self).store_dir,
            final(self).use_git == old(self).use_git,
    {
        self.files.remove(pos - 1)
    }

    /// Moves the store to `store_path`.
    pub fn change_store_dir(&mut self, store_path: String)
        ensures
            final(self).store_dir == store_path,
            final(self).files@ == old(self).files@,
            final(self).use_git == old(self).use_git,
    {
        self.store_dir = store_path;
    }

    /// The listing of the managed entries, one line each, numbered from 1.
    pub fn list_files(&self) -> (res: Vec<String>)
        ensures
            res@.len() == self.files@.len(),
            forall|i: int|
                0 <= i < res@.len() ==> #[trigger] res@[i]@ == entry_line(
                    (i + 1) as nat,
                    self.store_dir@,
                    self.files@[i].0@,
                    self.files@[i].1@,
                ),
    {
        let mut res: Vec<String> = Vec::new();
        let mut i: usize = 0;
        while i < self.files.len()
            invariant
                i <= self.files@.len(),
                res@.len() == i,
                forall|j: int|
                    0 <= j < i ==> #[trigger] res@[j]@ == entry_line(
                        (j + 1) as nat,
                        self.store_dir@,
                        self.files@[j].0@,
                        self.files@[j].1@,
                    ),
            decreases self.files@.len() - i,
        {
            let entry = &self.files[i];
            let target = path_join(self.store_dir.as_str(), entry.0.as_str());
            let stored = path_join(self.store_dir.as_str(), entry.1.as_str());
            let shown_target = path_debug(target.as_str());
            let shown_stored = path_debug(stored.as_str());
            res.push(listing_line(i + 1, shown_target.as_str(), shown_stored.as_str()));
            i = i + 1;
        }
        res
    }
}

/// The store directory under a home directory.
pub fn store_dir_from_home(home: Option<String>) -> (res: Result<String, Error>)
    ensures
        match home {
            Some(h) => res matches Ok(p) && p@ == joined(h@, ".store/"@),
            None => res == Err::<String, Error>(Error::HomeDirNotFound),
        },
{
    match home {
        Some(h) => Ok(path_join(h.as_str(), ".store/")),
        None => Err(Error::HomeDirNotFound),
    }
}

/// The configuration file under a configuration directory.
pub fn config_file_from_dir(config_dir: Option<String>) -> (res: Result<String, Error>)
    ensures
        match config_dir {
            Some(d) => res matches Ok(p) && p@ == joined(d@, "bloi/config.json"@),
            None => res == Err::<String, Error>(Error::ConfigDirNotFound),
        },
{
    match config_dir {
        Some(d) => Ok(path_join(d.as_str(), "bloi/config.json")),
        None => Err(Error::ConfigDirNotFound),
    }
}

/// A home directory, as the environment reports it. Its own type keeps it apart
/// from the configuration directory: only `home_dir` makes one.
pub struct HomeDir {
    home: String,
}

/// A configuration directory, as the environment reports it; only `config_dir`
/// makes one.
pub struct ConfigDir {
    config: String,
}

/// `dirs::home_dir`: the user's home directory as the environment gives it, if
/// any. Nothing is stated of the result, which depends on the environment.
#[verifier::external_body]
fn home_dir() -> (res: Option<HomeDir>) {
    match dirs::home_dir() {
        Some(p) => Some(HomeDir { home: p.to_string_lossy().into_owned() }),
        None => None,
    }
}

/// `dirs::config_dir`: the user's configuration directory as the environment
/// gives it, if any. Nothing is stated of the result, which depends on the
/// environment.
#[verifier::external_body]
fn config_dir() -> (res: Option<ConfigDir>) {
    match dirs::config_dir() {
        Some(p) => Some(ConfigDir { config: p.to_string_lossy().into_owned() }),
        None => None,
    }
}

/// The default store directory, `.store/` under the home directory that
/// `dirs::home_dir` reports.
pub fn get_default_store_path() -> (res: Result<String, Error>)
    ensures
        match res {
            Ok(p) => exists|h: Seq<char>| p@ == #[trigger] joined(h, ".store/"@),
            Err(e) => e == Error::HomeDirNotFound,
        },
{
    let home: Option<String> = match home_dir() {
        Some(h) => Some(h.home),
        None => None,
    };
    let ghost g = home;
    let res = store_dir_from_home(home);
    proof {
        if let Some(h) = g {
            assert(res matches Ok(p) && p@ == joined(h@, ".store/"@));
        }
    }
    res
}

/// The configuration file, `bloi/config.json` under the configuration directory
/// that `dirs::config_dir` reports.
pub fn get_full_config_file_path() -> (res: Result<String, Error>)
    ensures
        match res {
            Ok(p) => exists|d: Seq<char>| p@ == #[trigger] joined(d, "bloi/config.json"@),
            Err(e) => e == Error::ConfigDirNotFound,
        },
{
    let dir: Option<String> = match config_dir() {
        Some(d) => Some(d.config),
        None => None,
    };
    let ghost g = dir;
    let res = config_file_from_dir(dir);
    proof {
        if let Some(d) = g {
            assert(res matches Ok(p) && p@ == joined(d@, "bloi/config.json"@));
        }
    }
    res
}

} // verus!
