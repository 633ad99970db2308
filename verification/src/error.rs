use vstd::prelude::*;

verus! {

/// Everything that can go wrong while storing, restoring or configuring.
/// The variants that the operating system or the JSON layer report carry
/// that report as text.
#[derive(Debug, PartialEq, Eq)]
pub enum Error {
    Io(String),
    SerdeJson(String),
    HomeDirNotFound,
    ConfigDirNotFound,
    GitPotentialConflict,
    UnconventionalClapArgMissing(String),
    PathNotClassified(String),
    OtherStripPrefixError(String),
    EqNoExistDirError(String, String),
    EqSymLinkWithoutSource(String),
    EqSymLinkSymLink(String, String),
    EqNoExistNoExist(String, String),
    EqFileDir(String, String),
    NoPossibleUserChoice(String),
    NoParent,
}

} // verus!

verus! {

/// The text that an error is shown with.
pub open spec fn message_text(e: Error) -> Seq<char> {
    match e {
        Error::Io(s) => "Io: "@ + s@,
        Error::SerdeJson(s) => "SerdeJson: "@ + s@,
        Error::HomeDirNotFound => "HomeDirNotFound: Home dir could not be found"@,
        Error::ConfigDirNotFound => "ConfigDirNotFound: Config dir could not be found"@,
        Error::GitPotentialConflict =>
            "GitPotentialConflict: Found a potential git conflict - merge must be performed by user"@,
        Error::UnconventionalClapArgMissing(s) => "UnconventionalClapArgMissing: Parameter is missing: "@
            + s@,
        Error::PathNotClassified(p) => "PathNotClassified: Path could not be classified: "@ + p@,
        Error::OtherStripPrefixError(s) => "OtherStripPrefixError: "@ + s@,
        Error::EqNoExistDirError(a, b) => "EqNoExistDirError: this should not happen\n"@ + a@ + "\n"@
            + b@,
        Error::EqSymLinkWithoutSource(p) =>
            "EqSymLinkWithoutSource: Symlink without source potential data loss\n"@ + p@,
        Error::EqSymLinkSymLink(a, b) => "EqSymLinkSymLink: Two Symlinks potential data loss\n"@ + a@
            + "\n"@ + b@,
        Error::EqNoExistNoExist(a, b) => "EqNoExistNoExist: very strange no exist\n"@ + a@ + "\n"@
            + b@,
        Error::EqFileDir(a, b) => "EqFileDir: PathTypeError\n"@ + a@ + "\n"@ + b@,
        Error::NoPossibleUserChoice(s) => "NoPossibleUserChoice: Invalid selection: "@ + s@,
        Error::NoParent => "NoParent: Directory has no parent"@,
    }
}

/// `prefix` followed by `a`, a newline and `b`.
fn two_paths(prefix: &str, a: &String, b: &String) -> (res: String)
    ensures
        res@ == prefix@ + a@ + "\n"@ + b@,
{
    let mut m = String::from_str(prefix);
    m.append(a.as_str());
    m.append("\n");
    m.append(b.as_str());
    m
}

impl Error {
    /// The text that the error is shown with: its name, then what went wrong.
    pub fn message(&self) -> (res: String)
        ensures
            res@ == message_text(*self),
    {
        match self {
            Error::Io(s) => String::from_str("Io: ").concat(s.as_str()),
            Error::SerdeJson(s) => String::from_str("SerdeJson: ").concat(s.as_str()),
            Error::HomeDirNotFound => String::from_str("HomeDirNotFound: Home dir could not be found"),
            Error::ConfigDirNotFound => String::from_str(
                "ConfigDirNotFound: Config dir could not be found",
            ),
            Error::GitPotentialConflict => String::from_str(
                "GitPotentialConflict: Found a potential git conflict - merge must be performed by user",
            ),
            Error::UnconventionalClapArgMissing(s) => String::from_str(
                "UnconventionalClapArgMissing: Parameter is missing: ",
            ).concat(s.as_str()),
            Error::PathNotClassified(p) => String::from_str(
                "PathNotClassified: Path could not be classified: ",
            ).concat(p.as_str()),
            Error::OtherStripPrefixError(s) => String::from_str("OtherStripPrefixError: ").concat(
                s.as_str(),
            ),
            Error::EqNoExistDirError(a, b) => two_paths(
                "EqNoExistDirError: this should not happen\n",
                a,
                b,
            ),
            Error::EqSymLinkWithoutSource(p) => String::from_str(
                "EqSymLinkWithoutSource: Symlink without source potential data loss\n",
            ).concat(p.as_str()),
            Error::EqSymLinkSymLink(a, b) => two_paths(
                "EqSymLinkSymLink: Two Symlinks potential data loss\n",
                a,
                b,
            ),
            Error::EqNoExistNoExist(a, b) => two_paths(
                "EqNoExistNoExist: very strange no exist\n",
                a,
                b,
            ),
            Error::EqFileDir(a, b) => two_paths("EqFileDir: PathTypeError\n", a, b),
            Error::NoPossibleUserChoice(s) => String::from_str(
                "NoPossibleUserChoice: Invalid selection: ",
            ).concat(s.as_str()),
            Error::NoParent => String::from_str("NoParent: Directory has no parent"),
        }
    }
}

} // verus!
