use vstd::prelude::*;

use crate::error::Error;
use crate::paths::{
    absolute_to_relative, is_absolute_text, joined, lemma_join_stays_under, lemma_under_refl,
    lemma_under_trans, path_join, paths_equal, relative_form, same_path, under,
};
use crate::text::{distinct, lemma_distinct, texts, trim_text, trimmed, union_texts};

verus! {

/// What a probe of the file system reported about one path.
#[derive(Debug, Clone, Copy, PartialEq, Eq, Structural)]
pub struct PathFacts {
    pub is_symlink: bool,
    pub exists: bool,
    pub is_dir: bool,
    pub is_file: bool,
}

/// A path together with what it is on disk; a symlink also carries the path it
/// points to.
#[derive(Debug, PartialEq, Eq)]
pub enum PathType {
    SymLink(String, String),
    NoExist(String),
    File(String),
    Dir(String),
}

/// How a conflict between two regular files is settled.
#[derive(Debug, Clone, Copy, PartialEq, Eq, Structural)]
pub enum UserChoice {
    TakeStore,
    TakeTarget,
    TakeStoreAll,
    TakeTargetAll,
    NoChoice,
}

/// Decides what a path is from the probe's report. A symlink is reported as such
/// even when it dangles; an existing path that is neither a directory nor a file
/// cannot be classified.
pub fn classify_path(path: String, facts: PathFacts, link_target: String) -> (res: Result<
    PathType,
    Error,
>)
    ensures
        facts.is_symlink ==> res == Ok::<PathType, Error>(PathType::SymLink(path, link_target)),
        !facts.is_symlink && facts.exists && facts.is_dir ==> res == Ok::<PathType, Error>(
            PathType::Dir(path),
        ),
        !facts.is_symlink && facts.exists && !facts.is_dir && facts.is_file ==> res == Ok::<
            PathType,
            Error,
        >(PathType::File(path)),
        !facts.is_symlink && facts.exists && !facts.is_dir && !facts.is_file ==> res == Err::<
            PathType,
            Error,
        >(Error::PathNotClassified(path)),
        !facts.is_symlink && !facts.exists ==> res == Ok::<PathType, Error>(
            PathType::NoExist(path),
        ),
{
    if facts.is_symlink {
        Ok(PathType::SymLink(path, link_target))
    } else if facts.exists {
        if facts.is_dir {
            Ok(PathType::Dir(path))
        } else if facts.is_file {
            Ok(PathType::File(path))
        } else {
            Err(Error::PathNotClassified(path))
        }
    } else {
        Ok(PathType::NoExist(path))
    }
}

/// `link` is already a symlink that points at `original`.
pub open spec fn links_to(link: PathType, original: Seq<char>) -> bool {
    match link {
        PathType::SymLink(_, target) => same_path(target@, original),
        _ => false,
    }
}

/// Whether the classified path `link` is a symlink to `original`. A symlink
/// whose target reads exactly as `original` counts, so an entry that storing
/// has linked to its store path is not stored again.
pub fn check_link(link: &PathType, original: &str) -> (res: bool)
    ensures
        res == links_to(*link, original@),
        (*link matches PathType::SymLink(_, t) && t@ == original@) ==> res,
        !(*link is SymLink) ==> !res,
{
    match link {
        PathType::SymLink(_, target) => paths_equal(target.as_str(), original),
        _ => false,
    }
}

/// The errors of equalizing that storing reports and then goes past: none of
/// them leaves content only in the target. A file facing a directory
/// (`EqFileDir`) is not among them: storing stops there and leaves the target
/// as it is.
pub open spec fn is_tolerated(e: Error) -> bool {
    match e {
        Error::EqSymLinkWithoutSource(_) => true,
        Error::EqNoExistDirError(_, _) => true,
        Error::EqSymLinkSymLink(_, _) => true,
        _ => false,
    }
}

/// Whether storing goes on after equalizing failed with `e`.
pub fn tolerated_eq_error(e: &Error) -> (res: bool)
    ensures
        res == is_tolerated(*e),
{
    match e {
        Error::EqSymLinkWithoutSource(_) => true,
        Error::EqNoExistDirError(_, _) => true,
        Error::EqSymLinkSymLink(_, _) => true,
        _ => false,
    }
}

/// How a path is cleared away before the symlink takes its place.
#[derive(Debug, Clone, Copy, PartialEq, Eq, Structural)]
pub enum Removal {
    RemoveFile,
    RemoveDirAll,
}

/// Files and symlinks are removed as files; directories, and paths that do not
/// exist, as whole directory trees.
pub fn remove_special(path_type: &PathType) -> (res: Removal)
    ensures
        res == (match *path_type {
            PathType::File(_) | PathType::SymLink(_, _) => Removal::RemoveFile,
            PathType::Dir(_) | PathType::NoExist(_) => Removal::RemoveDirAll,
        }),
{
    match path_type {
        PathType::File(_) | PathType::SymLink(_, _) => Removal::RemoveFile,
        PathType::Dir(_) | PathType::NoExist(_) => Removal::RemoveDirAll,
    }
}

} // verus!

verus! {

/// The choice that an answer to the conflict prompt selects: an empty answer or
/// `1` removes the first of the two files (the original, when storing), `2` the
/// second (the stored one, when storing), `3` and `4` do so for all remaining
/// conflicts of the entry.
pub open spec fn choice_for(answer: Seq<char>) -> Option<UserChoice> {
    if answer == Seq::<char>::empty() || answer == seq!['1'] {
        Some(UserChoice::TakeStore)
    } else if answer == seq!['2'] {
        Some(UserChoice::TakeTarget)
    } else if answer == seq!['3'] {
        Some(UserChoice::TakeStoreAll)
    } else if answer == seq!['4'] {
        Some(UserChoice::TakeTargetAll)
    } else {
        None
    }
}

/// Reads a (trimmed) answer to the conflict prompt.
pub fn parse_choice(answer: &str) -> (res: Option<UserChoice>)
    ensures
        res == choice_for(answer@),
{
    let n: usize = answer.unicode_len();
    if n == 0 {
        assert(answer@ =~= Seq::<char>::empty());
        return Some(UserChoice::TakeStore);
    }
    if n != 1 {
        return None;
    }
    let c = answer.get_char(0);
    assert(answer@ =~= seq![c]);
    if c == '1' {
        Some(UserChoice::TakeStore)
    } else if c == '2' {
        Some(UserChoice::TakeTarget)
    } else if c == '3' {
        Some(UserChoice::TakeStoreAll)
    } else if c == '4' {
        Some(UserChoice::TakeTargetAll)
    } else {
        None
    }
}

/// The choice that a trimmed answer selects; any other answer is refused with
/// `NoPossibleUserChoice`, which carries the answer.
pub fn answer_choice(answer: &str) -> (res: Result<UserChoice, Error>)
    ensures
        match res {
            Ok(c) => choice_for(answer@) == Some(c),
            Err(e) => choice_for(answer@) is None && (e matches Error::NoPossibleUserChoice(s)
                && s@ == answer@),
        },
{
    match parse_choice(answer) {
        Some(c) => Ok(c),
        None => Err(Error::NoPossibleUserChoice(String::from_str(answer))),
    }
}

/// The choice that a line typed at the conflict prompt selects, after trimming.
pub fn get_user_choice(line: &str) -> (res: Result<UserChoice, Error>)
    ensures
        match res {
            Ok(c) => choice_for(trimmed(line@)) == Some(c),
            Err(e) => choice_for(trimmed(line@)) is None && (e matches Error::NoPossibleUserChoice(
                s,
            ) && s@ == trimmed(line@)),
        },
{
    let answer = trim_text(line);
    answer_choice(answer.as_str())
}

/// A conflict between two files is put to the user unless an earlier answer
/// settled all conflicts of the entry.
pub open spec fn asks_user(c: UserChoice) -> bool {
    c is NoChoice || c is TakeStore || c is TakeTarget
}

/// The file that a settled conflict removes: the first path for `TakeStore`
/// choices, the second for `TakeTarget` ones (when storing, the first path is the
/// original and the second the stored copy).
pub open spec fn settle(first: String, second: String, c: UserChoice) -> String {
    if c is TakeStore || c is TakeStoreAll {
        first
    } else {
        second
    }
}

/// One step of making two paths hold the same content.
#[derive(Debug, PartialEq, Eq)]
pub enum EqAction {
    /// Create the parent directories of `to`, then copy the file `from` to `to`.
    CopyToMissing { from: String, to: String },
    /// Remove the symlink `link`, then copy the file `from` in its place.
    ReplaceLink { from: String, link: String },
    /// Remove the symlink `link`; the pair is then looked at again.
    RemoveLink { link: String },
    /// Show `shown`, ask which file to keep and hand the line to `on_answer`.
    Ask { shown: String },
    /// Remove the file `path`; the pair is then looked at again.
    RemoveFile { path: String },
    /// Create both directories, list them and hand the names to `on_children`.
    MakeDirs { first: String, second: String },
    /// Stop: the pair cannot be equalized.
    Fail(Error),
}

/// The step that a pair of classified paths calls for under choice `c`.
pub open spec fn pair_action(t1: PathType, t2: PathType, c: UserChoice) -> EqAction {
    match (t1, t2) {
        (PathType::File(p1), PathType::NoExist(p2)) => EqAction::CopyToMissing { from: p1, to: p2 },
        (PathType::NoExist(p2), PathType::File(p1)) => EqAction::CopyToMissing { from: p1, to: p2 },
        (PathType::NoExist(_), PathType::SymLink(p, _)) => EqAction::Fail(
            Error::EqSymLinkWithoutSource(p),
        ),
        (PathType::SymLink(p, _), PathType::NoExist(_)) => EqAction::Fail(
            Error::EqSymLinkWithoutSource(p),
        ),
        (PathType::File(p1), PathType::SymLink(p2, _)) => EqAction::ReplaceLink {
            from: p1,
            link: p2,
        },
        (PathType::SymLink(p2, _), PathType::File(p1)) => EqAction::ReplaceLink {
            from: p1,
            link: p2,
        },
        (PathType::SymLink(p1, _), PathType::SymLink(p2, _)) => EqAction::Fail(
            Error::EqSymLinkSymLink(p1, p2),
        ),
        (PathType::NoExist(p1), PathType::NoExist(p2)) => EqAction::Fail(
            Error::EqNoExistNoExist(p1, p2),
        ),
        (PathType::File(p1), PathType::Dir(p2)) => EqAction::Fail(Error::EqFileDir(p1, p2)),
        (PathType::Dir(p1), PathType::File(p2)) => EqAction::Fail(Error::EqFileDir(p1, p2)),
        (PathType::SymLink(p1, _), PathType::Dir(_)) => EqAction::RemoveLink { link: p1 },
        (PathType::Dir(_), PathType::SymLink(p1, _)) => EqAction::RemoveLink { link: p1 },
        (PathType::File(p1), PathType::File(p2)) => if asks_user(c) {
            EqAction::Ask { shown: p1 }
        } else {
            EqAction::RemoveFile { path: settle(p1, p2, c) }
        },
        (PathType::Dir(p1), PathType::Dir(p2)) => EqAction::MakeDirs { first: p1, second: p2 },
        (PathType::NoExist(p1), PathType::Dir(p2)) => EqAction::MakeDirs { first: p1, second: p2 },
        (PathType::Dir(p1), PathType::NoExist(p2)) => EqAction::MakeDirs { first: p1, second: p2 },
    }
}

/// What the equalizer waits for next.
#[derive(Debug, PartialEq, Eq)]
pub enum EqPhase {
    /// The classification of the pair on top of the stack (`on_classified`).
    Classify,
    /// The answer to a conflict between the files `first` and `second` (`on_answer`).
    Answer { first: String, second: String },
    /// The entries of the two directories on top of the stack (`on_children`).
    Children,
}

/// Makes two paths hold the same content, step by step: the caller probes the
/// file system and performs the actions, the equalizer decides. `pending` is a
/// stack of path pairs still to equalize; its top is the last entry.
pub struct Equalizer {
    pub pending: Vec<(String, String)>,
    pub choice: UserChoice,
    pub phase: EqPhase,
}

/// The views of a sequence of path pairs.
pub open spec fn pair_texts(p: Seq<(String, String)>) -> Seq<(Seq<char>, Seq<char>)> {
    p.map_values(|q: (String, String)| (q.0@, q.1@))
}

/// The pairs of children: each name joined onto both directories.
pub open spec fn joined_pairs(first: Seq<char>, second: Seq<char>, names: Seq<Seq<char>>) -> Seq<
    (Seq<char>, Seq<char>),
> {
    names.map_values(|n: Seq<char>| (joined(first, n), joined(second, n)))
}

/// Joins each name onto both directories.
pub fn child_pairs(first: &str, second: &str, names: &Vec<String>) -> (res: Vec<(String, String)>)
    ensures
        pair_texts(res@) == joined_pairs(first@, second@, texts(names@)),
{
    let mut res: Vec<(String, String)> = Vec::new();
    let mut i: usize = 0;
    while i < names.len()
        invariant
            i <= names@.len(),
            pair_texts(res@) == joined_pairs(first@, second@, texts(names@).take(i as int)),
        decreases names@.len() - i,
    {
        let ghost before = res@;
        let a = path_join(first, names[i].as_str());
        let b = path_join(second, names[i].as_str());
        res.push((a, b));
        let ghost n = texts(names@)[i as int];
        assert(n == names@[i as int]@);
        assert(texts(names@).take(i + 1) =~= texts(names@).take(i as int).push(n));
        assert(pair_texts(res@) =~= pair_texts(before).push((joined(first@, n), joined(second@, n))));
        assert(pair_texts(res@) =~= joined_pairs(first@, second@, texts(names@).take(i + 1)));
        i = i + 1;
    }
    assert(texts(names@).take(names@.len() as int) =~= texts(names@));
    res
}

/// The path that a classification is about.
pub open spec fn type_path(t: PathType) -> Seq<char> {
    match t {
        PathType::SymLink(p, _) => p@,
        PathType::NoExist(p) => p@,
        PathType::File(p) => p@,
        PathType::Dir(p) => p@,
    }
}

/// Every pending pair lies under the two roots, its first path under `r1` and
/// its second under `r2`.
pub open spec fn pairs_within(pt: Seq<(Seq<char>, Seq<char>)>, r1: Seq<char>, r2: Seq<char>) -> bool {
    forall|i: int| #![trigger pt[i]] 0 <= i < pt.len() ==> under(r1, pt[i].0) && under(r2, pt[i].1)
}

/// The paths that a step removes, copies from or writes to.
pub open spec fn touches(a: EqAction, p: Seq<char>) -> bool {
    match a {
        EqAction::CopyToMissing { from, to } => p == from@ || p == to@,
        EqAction::ReplaceLink { from, link } => p == from@ || p == link@,
        EqAction::RemoveLink { link } => p == link@,
        EqAction::RemoveFile { path } => p == path@,
        EqAction::MakeDirs { first, second } => p == first@ || p == second@,
        EqAction::Ask { .. } => false,
        EqAction::Fail(_) => false,
    }
}

/// The paths that a step writes into without removing them first: the missing
/// side of a copy and the two directories it creates.
pub open spec fn writes_into(a: EqAction, p: Seq<char>) -> bool {
    match a {
        EqAction::CopyToMissing { to, .. } => p == to@,
        EqAction::MakeDirs { first, second } => p == first@ || p == second@,
        _ => false,
    }
}

/// A step on two distinct paths never writes through a symlink: what it writes
/// into is a path that was missing or a directory; a symlink is only ever removed
/// (and then replaced by a copy).
pub proof fn lemma_steps_never_write_through_links(t1: PathType, t2: PathType, c: UserChoice)
    requires
        type_path(t1) != type_path(t2),
    ensures
        forall|p: Seq<char>| #[trigger] writes_into(pair_action(t1, t2, c), p) ==> {
            &&& p == type_path(t1) ==> (t1 is NoExist || t1 is Dir)
            &&& p == type_path(t2) ==> (t2 is NoExist || t2 is Dir)
        },
{
}

/// The children of the pair on top of the stack, joined from relative names, lie
/// under the same roots as the pair itself.
pub proof fn lemma_children_stay_within(
    before: Seq<(String, String)>,
    names: Seq<Seq<char>>,
    r1: Seq<char>,
    r2: Seq<char>,
)
    requires
        before.len() > 0,
        pairs_within(pair_texts(before), r1, r2),
        forall|i: int| 0 <= i < names.len() ==> !is_absolute_text(#[trigger] names[i]),
    ensures
        pairs_within(
            pair_texts(before.drop_last()) + joined_pairs(before.last().0@, before.last().1@, names),
            r1,
            r2,
        ),
{
    let a = before.last().0@;
    let b = before.last().1@;
    let old_pt = pair_texts(before);
    let pt = pair_texts(before.drop_last()) + joined_pairs(a, b, names);
    assert(old_pt[before.len() - 1] == (a, b));
    assert forall|i: int| 0 <= i < pt.len() implies under(r1, pt[i].0) && under(r2, pt[i].1) by {
        if i < before.len() - 1 {
            assert(pt[i] == old_pt[i]);
        } else {
            let n = names[i - (before.len() - 1)];
            assert(pt[i] == (joined(a, n), joined(b, n)));
            lemma_join_stays_under(a, n);
            lemma_join_stays_under(b, n);
            lemma_under_trans(r1, a, joined(a, n));
            lemma_under_trans(r2, b, joined(b, n));
        }
    }
}

/// The state that a run of the equalizer carries from step to step: the pairs
/// of paths still to equalize and the choice made so far.
pub struct EqView {
    pub pending: Seq<(Seq<char>, Seq<char>)>,
    pub choice: UserChoice,
}

impl View for Equalizer {
    type V = EqView;

    open spec fn view(&self) -> EqView {
        EqView { pending: pair_texts(self.pending@), choice: self.choice }
    }
}

/// A choice that settles every remaining conflict of the entry.
pub open spec fn settled_for_all(c: UserChoice) -> bool {
    c is TakeStoreAll || c is TakeTargetAll
}

/// What every step of a run keeps: a choice for all conflicts stays, a made
/// choice never goes back to none, and pairs that lay under two roots still do.
pub open spec fn step_keeps(a: EqView, b: EqView) -> bool {
    &&& settled_for_all(a.choice) ==> b.choice == a.choice
    &&& !(a.choice is NoChoice) ==> !(b.choice is NoChoice)
    &&& forall|r1: Seq<char>, r2: Seq<char>|
        pairs_within(a.pending, r1, r2) ==> #[trigger] pairs_within(b.pending, r1, r2)
}

/// A step names only the two paths it was given.
pub proof fn lemma_pair_action_touches(t1: PathType, t2: PathType, c: UserChoice)
    ensures
        forall|p: Seq<char>| #[trigger]
            touches(pair_action(t1, t2, c), p) ==> p == type_path(t1) || p == type_path(t2),
{
}

/// Over a whole run, each step keeping what `step_keeps` says: every pending pair
/// stays under the two starting paths, so every path a step touches lies under
/// one of them; a choice for all conflicts stays and no conflict is asked again;
/// once a choice is made it never goes back to none.
pub proof fn lemma_equalizing_run(states: Seq<EqView>, r1: Seq<char>, r2: Seq<char>)
    requires
        states.len() > 0,
        forall|i: int| 0 <= i < states.len() - 1 ==> step_keeps(#[trigger] states[i], states[i + 1]),
        pairs_within(states[0].pending, r1, r2),
    ensures
        forall|i: int| 0 <= i < states.len() ==> pairs_within(#[trigger] states[i].pending, r1, r2),
        settled_for_all(states[0].choice) ==> forall|i: int|
            0 <= i < states.len() ==> #[trigger] states[i].choice == states[0].choice,
        settled_for_all(states[0].choice) ==> forall|i: int, t1: PathType, t2: PathType|
            0 <= i < states.len() ==> !(#[trigger] pair_action(t1, t2, states[i].choice) is Ask),
        !(states[0].choice is NoChoice) ==> forall|i: int|
            0 <= i < states.len() ==> !(#[trigger] states[i].choice is NoChoice),
        forall|i: int, t1: PathType, t2: PathType, p: Seq<char>|
            0 <= i < states.len() && states[i].pending.len() > 0 && type_path(t1)
                == states[i].pending.last().0 && type_path(t2) == states[i].pending.last().1
                && #[trigger] touches(pair_action(t1, t2, #[trigger] states[i].choice), p) ==> under(
                r1,
                p,
            ) || under(r2, p),
    decreases states.len(),
{
    if states.len() > 1 {
        let prev = states.drop_last();
        assert forall|i: int| 0 <= i < prev.len() - 1 implies step_keeps(#[trigger] prev[i], prev[i + 1]) by {
            assert(prev[i] == states[i] && prev[i + 1] == states[i + 1]);
        }
        lemma_equalizing_run(prev, r1, r2);
        let n = states.len() - 1;
        assert(prev[n - 1] == states[n - 1]);
        assert(step_keeps(states[n - 1], states[n]));
        assert(pairs_within(states[n - 1].pending, r1, r2));
        assert(pairs_within(states[n].pending, r1, r2));
        assert forall|i: int| 0 <= i < states.len() implies pairs_within(#[trigger] states[i].pending, r1, r2) by {
            if i < n {
                assert(prev[i] == states[i]);
            }
        }
        if settled_for_all(states[0].choice) {
            assert forall|i: int| 0 <= i < states.len() implies #[trigger] states[i].choice
                == states[0].choice by {
                if i < n {
                    assert(prev[i] == states[i]);
                } else {
                    assert(prev[n - 1].choice == states[0].choice);
                }
            }
        }
        if !(states[0].choice is NoChoice) {
            assert forall|i: int| 0 <= i < states.len() implies !(#[trigger] states[i].choice is NoChoice) by {
                if i < n {
                    assert(prev[i] == states[i]);
                } else {
                    assert(!(prev[n - 1].choice is NoChoice));
                }
            }
        }
    }
    assert forall|i: int, t1: PathType, t2: PathType, p: Seq<char>|
        0 <= i < states.len() && states[i].pending.len() > 0 && type_path(t1)
            == states[i].pending.last().0 && type_path(t2) == states[i].pending.last().1
            && #[trigger] touches(pair_action(t1, t2, #[trigger] states[i].choice), p) implies under(
        r1,
        p,
    ) || under(r2, p) by {
        lemma_pair_action_touches(t1, t2, states[i].choice);
        let pt = states[i].pending;
        assert(pairs_within(pt, r1, r2));
        assert(pt[pt.len() - 1] == pt.last());
    }
}

impl Equalizer {
    /// The equalizer waits for an answer only under a choice that asks.
    pub open spec fn well_formed(&self) -> bool {
        self.phase is Answer ==> asks_user(self.choice)
    }

    /// Starts equalizing `path1` with `path2` under the choice made so far.
    pub fn new(path1: String, path2: String, choice: UserChoice) -> (res: Equalizer)
        ensures
            res.pending@ == seq![(path1, path2)],
            res.choice == choice,
            res.phase == EqPhase::Classify,
            pairs_within(pair_texts(res.pending@), path1@, path2@),
            res.well_formed(),
    {
        proof {
            lemma_under_refl(path1@);
            lemma_under_refl(path2@);
        }
        let mut pending: Vec<(String, String)> = Vec::new();
        pending.push((path1, path2));
        Equalizer { pending, choice, phase: EqPhase::Classify }
    }

    /// The pair to classify next, `None` once everything is equal.
    pub fn current_pair(&self) -> (res: Option<(String, String)>)
        ensures
            self.pending@.len() == 0 ==> res is None,
            self.pending@.len() > 0 ==> res == Some(self.pending@.last()),
    {
        let n: usize = self.pending.len();
        if n == 0 {
            None
        } else {
            let p = &self.pending[n - 1];
            Some((p.0.clone(), p.1.clone()))
        }
    }

    /// Decides what the pair on top of the stack calls for, given what its two
    /// paths are. A copy finishes the pair; a removal leaves it to be looked at
    /// again; a failure ends equalizing.
    pub fn on_classified(&mut self, t1: PathType, t2: PathType) -> (res: EqAction)
        requires
            old(self).phase == EqPhase::Classify,
            old(self).pending@.len() > 0,
            old(self).well_formed(),
        ensures
            res == pair_action(t1, t2, old(self).choice),
            (t1 is File && t2 is File) ==> (res is Ask <==> !(old(self).choice is TakeStoreAll
                || old(self).choice is TakeTargetAll)),
            final(self).well_formed(),
            step_keeps(old(self)@, final(self)@),
            final(self).choice == old(self).choice,
            (res is CopyToMissing || res is ReplaceLink) ==> final(self).pending@ == old(self).pending@.drop_last(),
            res is Fail ==> final(self).pending@.len() == 0,
            (res is RemoveLink || res is RemoveFile || res is Ask || res is MakeDirs) ==> final(self).pending@ == old(self).pending@,
            res is Ask ==> ((t1, t2) matches (PathType::File(p1), PathType::File(p2))
                && final(self).phase == (EqPhase::Answer { first: p1, second: p2 })),
            res is MakeDirs ==> final(self).phase == EqPhase::Children,
            !(res is Ask || res is MakeDirs) ==> final(self).phase == EqPhase::Classify,
            forall|r1: Seq<char>, r2: Seq<char>|
                pairs_within(pair_texts(old(self).pending@), r1, r2) ==> #[trigger] pairs_within(
                    pair_texts(final(self).pending@),
                    r1,
                    r2,
                ),
            (type_path(t1) == old(self).pending@.last().0@ && type_path(t2) == old(
                self,
            ).pending@.last().1@) ==> forall|p: Seq<char>| #[trigger]
                touches(res, p) ==> p == old(self).pending@.last().0@ || p == old(
                    self,
                ).pending@.last().1@,
    {
        let ghost before = self.pending@;
        let act = match (t1, t2) {
            (PathType::File(p1), PathType::NoExist(p2)) => EqAction::CopyToMissing {
                from: p1,
                to: p2,
            },
            (PathType::NoExist(p2), PathType::File(p1)) => EqAction::CopyToMissing {
                from: p1,
                to: p2,
            },
            (PathType::NoExist(_), PathType::SymLink(p, _)) => EqAction::Fail(
                Error::EqSymLinkWithoutSource(p),
            ),
            (PathType::SymLink(p, _), PathType::NoExist(_)) => EqAction::Fail(
                Error::EqSymLinkWithoutSource(p),
            ),
            (PathType::File(p1), PathType::SymLink(p2, _)) => EqAction::ReplaceLink {
                from: p1,
                link: p2,
            },
            (PathType::SymLink(p2, _), PathType::File(p1)) => EqAction::ReplaceLink {
                from: p1,
                link: p2,
            },
            (PathType::SymLink(p1, _), PathType::SymLink(p2, _)) => EqAction::Fail(
                Error::EqSymLinkSymLink(p1, p2),
            ),
            (PathType::NoExist(p1), PathType::NoExist(p2)) => EqAction::Fail(
                Error::EqNoExistNoExist(p1, p2),
            ),
            (PathType::File(p1), PathType::Dir(p2)) => EqAction::Fail(Error::EqFileDir(p1, p2)),
            (PathType::Dir(p1), PathType::File(p2)) => EqAction::Fail(Error::EqFileDir(p1, p2)),
            (PathType::SymLink(p1, _), PathType::Dir(_)) => EqAction::RemoveLink { link: p1 },
            (PathType::Dir(_), PathType::SymLink(p1, _)) => EqAction::RemoveLink { link: p1 },
            (PathType::File(p1), PathType::File(p2)) => {
                match self.choice {
                    UserChoice::TakeStoreAll => EqAction::RemoveFile { path: p1 },
                    UserChoice::TakeTargetAll => EqAction::RemoveFile { path: p2 },
                    _ => {
                        self.phase = EqPhase::Answer { first: p1.clone(), second: p2 };
                        EqAction::Ask { shown: p1 }
                    },
                }
            },
            (PathType::Dir(p1), PathType::Dir(p2)) => EqAction::MakeDirs {
                first: p1,
                second: p2,
            },
            (PathType::NoExist(p1), PathType::Dir(p2)) => EqAction::MakeDirs {
                first: p1,
                second: p2,
            },
            (PathType::Dir(p1), PathType::NoExist(p2)) => EqAction::MakeDirs {
                first: p1,
                second: p2,
            },
        };
        match act {
            EqAction::CopyToMissing { .. } | EqAction::ReplaceLink { .. } => {
                self.pending.pop();
            },
            EqAction::Fail(_) => {
                self.pending = Vec::new();
            },
            EqAction::MakeDirs { .. } => {
                self.phase = EqPhase::Children;
            },
            _ => {},
        }
        proof {
            assert forall|r1: Seq<char>, r2: Seq<char>|
                pairs_within(pair_texts(before), r1, r2) implies #[trigger] pairs_within(
                pair_texts(self.pending@),
                r1,
                r2,
            ) by {
                let pt = pair_texts(self.pending@);
                assert forall|i: int| 0 <= i < pt.len() implies under(r1, pt[i].0) && under(
                    r2,
                    pt[i].1,
                ) by {
                    assert(pt[i] == pair_texts(before)[i]);
                }
            }
        }
        act
    }

    /// Settles the conflict that `on_classified` put to the user, given the line
    /// typed at the prompt. The answer also becomes the choice for later
    /// conflicts; an answer that selects nothing ends equalizing.
    pub fn on_answer(&mut self, line: &str) -> (res: Result<EqAction, Error>)
        requires
            old(self).phase is Answer,
            old(self).well_formed(),
        ensures
            final(self).well_formed(),
            step_keeps(old(self)@, final(self)@),
            old(self).phase matches EqPhase::Answer { first, second } && match choice_for(
                trimmed(line@),
            ) {
                Some(c) => {
                    &&& res == Ok::<EqAction, Error>(
                        EqAction::RemoveFile { path: settle(first, second, c) },
                    )
                    &&& final(self).choice == c
                    &&& final(self).pending@ == old(self).pending@
                    &&& final(self).phase == EqPhase::Classify
                },
                None => {
                    &&& res matches Err(Error::NoPossibleUserChoice(s))
                    &&& s@ == trimmed(line@)
                    &&& final(self).choice == old(self).choice
                    &&& final(self).pending@.len() == 0
                    &&& final(self).phase == EqPhase::Classify
                },
            },
            forall|r1: Seq<char>, r2: Seq<char>|
                pairs_within(pair_texts(old(self).pending@), r1, r2) ==> #[trigger] pairs_within(
                    pair_texts(final(self).pending@),
                    r1,
                    r2,
                ),
            old(self).phase matches EqPhase::Answer { first, second } ==> {
                &&& (trimmed(line@) == seq!['2'] || trimmed(line@) == seq!['4']) ==> res
                    == Ok::<EqAction, Error>(EqAction::RemoveFile { path: second })
                &&& (trimmed(line@) == Seq::<char>::empty() || trimmed(line@) == seq!['1']
                    || trimmed(line@) == seq!['3']) ==> res == Ok::<EqAction, Error>(
                    EqAction::RemoveFile { path: first },
                )
            },
    {
        proof {
            if let EqPhase::Answer { first, second } = old(self).phase {
                lemma_answers_pick_a_side(trimmed(line@), first, second);
            }
        }
        let (first, second) = match &self.phase {
            EqPhase::Answer { first, second } => (first.clone(), second.clone()),
            _ => {
                proof {
                    assert(false);
                }
                (String::new(), String::new())
            },
        };
        self.phase = EqPhase::Classify;
        match get_user_choice(line) {
            Ok(c) => {
                self.choice = c;
                match c {
                    UserChoice::TakeStore | UserChoice::TakeStoreAll => Ok(
                        EqAction::RemoveFile { path: first },
                    ),
                    _ => Ok(EqAction::RemoveFile { path: second }),
                }
            },
            Err(e) => {
                self.pending = Vec::new();
                Err(e)
            },
        }
    }

    /// Replaces the two directories on top of the stack by the pairs of their
    /// children: every name found in either directory, once, joined onto both.
    pub fn on_children(&mut self, names1: &Vec<String>, names2: &Vec<String>)
        requires
            old(self).phase == EqPhase::Children,
            old(self).pending@.len() > 0,
            old(self).well_formed(),
        ensures
            final(self).well_formed(),
            ((forall|i: int| 0 <= i < names1@.len() ==> !is_absolute_text(#[trigger] names1@[i]@))
                && (forall|i: int|
                0 <= i < names2@.len() ==> !is_absolute_text(#[trigger] names2@[i]@)))
                ==> step_keeps(old(self)@, final(self)@),
            pair_texts(final(self).pending@) == pair_texts(old(self).pending@.drop_last())
                + joined_pairs(
                old(self).pending@.last().0@,
                old(self).pending@.last().1@,
                distinct(texts(names1@) + texts(names2@)),
            ),
            final(self).choice == old(self).choice,
            final(self).phase == EqPhase::Classify,
            forall|n: Seq<char>|
                (texts(names1@).contains(n) || texts(names2@).contains(n)) ==> #[trigger] pair_texts(
                    final(self).pending@,
                ).contains((joined(old(self).pending@.last().0@, n), joined(old(self).pending@.last().1@, n))),
            pair_texts(final(self).pending@).len() == old(self).pending@.len() - 1 + distinct(
                texts(names1@) + texts(names2@),
            ).len(),
            ((forall|i: int| 0 <= i < names1@.len() ==> !is_absolute_text(#[trigger] names1@[i]@))
                && (forall|i: int|
                0 <= i < names2@.len() ==> !is_absolute_text(#[trigger] names2@[i]@)))
                ==> forall|r1: Seq<char>, r2: Seq<char>|
                pairs_within(pair_texts(old(self).pending@), r1, r2) ==> #[trigger] pairs_within(
                    pair_texts(final(self).pending@),
                    r1,
                    r2,
                ),
    {
        let ghost before = self.pending@;
        let (first, second) = match self.pending.pop() {
            Some(p) => p,
            None => {
                proof {
                    assert(false);
                }
                (String::new(), String::new())
            },
        };
        let names = union_texts(names1, names2);
        let mut pairs = child_pairs(first.as_str(), second.as_str(), &names);
        let ghost added = pairs@;
        self.pending.append(&mut pairs);
        assert(pair_texts(self.pending@) =~= pair_texts(before.drop_last()) + pair_texts(added));
        self.phase = EqPhase::Classify;
        proof {
            let a = before.last().0@;
            let b = before.last().1@;
            let jp = joined_pairs(a, b, distinct(texts(names1@) + texts(names2@)));
            lemma_every_child_is_paired(a, b, texts(names1@), texts(names2@));
            let pt = pair_texts(self.pending@);
            let k = pair_texts(before.drop_last()).len();
            assert forall|n: Seq<char>|
                (texts(names1@).contains(n) || texts(names2@).contains(n)) implies #[trigger] pt.contains(
                (joined(a, n), joined(b, n)),
            ) by {
                assert(jp.contains((joined(a, n), joined(b, n))));
                let j = choose|j: int| 0 <= j < jp.len() && jp[j] == (joined(a, n), joined(b, n));
                assert(pt[k + j] == jp[j]);
            }
        }
        proof {
            let all = texts(names1@) + texts(names2@);
            if (forall|i: int| 0 <= i < names1@.len() ==> !is_absolute_text(#[trigger] names1@[i]@))
                && (forall|i: int|
                0 <= i < names2@.len() ==> !is_absolute_text(#[trigger] names2@[i]@)) {
                lemma_distinct(all);
                let d = distinct(all);
                assert forall|i: int| 0 <= i < d.len() implies !is_absolute_text(#[trigger] d[i]) by {
                    assert(d.contains(d[i]));
                    assert(all.contains(d[i]));
                    let j = choose|j: int| 0 <= j < all.len() && all[j] == d[i];
                    if j < names1@.len() {
                        assert(all[j] == names1@[j]@);
                    } else {
                        assert(all[j] == names2@[j - names1@.len()]@);
                    }
                }
                assert forall|r1: Seq<char>, r2: Seq<char>|
                    pairs_within(pair_texts(before), r1, r2) implies #[trigger] pairs_within(
                    pair_texts(self.pending@),
                    r1,
                    r2,
                ) by {
                    lemma_children_stay_within(before, d, r1, r2);
                }
            }
        }
    }
}

} // verus!

verus! {

/// The same step with the roles of the two paths exchanged.
pub open spec fn mirrored(a: EqAction) -> EqAction {
    match a {
        EqAction::MakeDirs { first, second } => EqAction::MakeDirs { first: second, second: first },
        EqAction::Fail(Error::EqSymLinkSymLink(x, y)) => EqAction::Fail(Error::EqSymLinkSymLink(y, x)),
        EqAction::Fail(Error::EqNoExistNoExist(x, y)) => EqAction::Fail(Error::EqNoExistNoExist(y, x)),
        EqAction::Fail(Error::EqFileDir(x, y)) => EqAction::Fail(Error::EqFileDir(y, x)),
        other => other,
    }
}

/// Equalizing is symmetric: swapping the two paths gives the same step with
/// the paths' roles swapped, save for a conflict between two files, where the
/// first path is the one shown and the stored side is the first.
pub proof fn lemma_pair_action_symmetric(t1: PathType, t2: PathType, c: UserChoice)
    requires
        !(t1 is File && t2 is File),
    ensures
        pair_action(t2, t1, c) == mirrored(pair_action(t1, t2, c)),
{
}

/// A pair is given up exactly when one side is a symlink and the other does not
/// exist, both are symlinks, neither exists, or a file faces a directory.
pub proof fn lemma_pair_action_fails(t1: PathType, t2: PathType, c: UserChoice)
    ensures
        pair_action(t1, t2, c) is Fail <==> {
            ||| (t1 is SymLink && t2 is NoExist) || (t1 is NoExist && t2 is SymLink)
            ||| t1 is SymLink && t2 is SymLink
            ||| t1 is NoExist && t2 is NoExist
            ||| (t1 is File && t2 is Dir) || (t1 is Dir && t2 is File)
        },
{
}

/// Once the user has answered for all conflicts of the entry (`3` or `4`), no
/// later conflict is asked again: it is settled by removing one of the two files,
/// the first path for `3` and the second for `4`.
pub proof fn lemma_answer_for_all_settles_later_conflicts(answer: Seq<char>, p1: String, p2: String)
    requires
        answer == seq!['3'] || answer == seq!['4'],
    ensures
        choice_for(answer) matches Some(c) && pair_action(PathType::File(p1), PathType::File(p2), c)
            == (EqAction::RemoveFile { path: if answer == seq!['3'] { p1 } else { p2 } }),
{
    let (one, two, three, four) = (seq!['1'], seq!['2'], seq!['3'], seq!['4']);
    assert(one[0] == '1' && two[0] == '2' && three[0] == '3' && four[0] == '4');
    assert(three != four && three != one && three != two && four != one && four != two);
    assert(answer.len() == 1);
}

/// Every accepted answer is a definite choice: a conflict that was asked is then
/// settled by removing one of its two files.
pub proof fn lemma_answer_is_definite(answer: Seq<char>, first: String, second: String)
    ensures
        choice_for(answer) matches Some(c) ==> !(c is NoChoice) && (settle(first, second, c)
            == first || settle(first, second, c) == second),
{
}

/// A file that a conflict left alone on one side is then copied to the other
/// side, which finishes the pair.
pub proof fn lemma_settled_conflict_is_copied(p1: String, p2: String, c: UserChoice)
    ensures
        pair_action(PathType::NoExist(p1), PathType::File(p2), c) == (EqAction::CopyToMissing {
            from: p2,
            to: p1,
        }),
        pair_action(PathType::File(p1), PathType::NoExist(p2), c) == (EqAction::CopyToMissing {
            from: p1,
            to: p2,
        }),
{
}

/// Where `target` is kept under the store directory: the target's path made
/// relative to the root and joined onto the store directory.
pub open spec fn store_location(target: Seq<char>, store_dir: Seq<char>) -> Seq<char> {
    joined(store_dir, relative_form(target))
}

/// The path under `store_dir` that holds the content of `target`. It never
/// leaves the store directory.
pub fn store_path_for(target: &str, store_dir: &str) -> (res: String)
    ensures
        res@ == store_location(target@, store_dir@),
        under(store_dir@, res@),
{
    let rel = absolute_to_relative(target);
    proof {
        lemma_join_stays_under(store_dir@, rel@);
    }
    path_join(store_dir, rel.as_str())
}

} // verus!

verus! {

/// Storing goes past a failed pair only where neither side holds a file or a
/// directory, so an original is never replaced while its content is only in
/// the target; a file facing a directory, either way round, stops storing.
pub proof fn lemma_tolerated_failures_hold_no_content(t1: PathType, t2: PathType, c: UserChoice)
    ensures
        pair_action(t1, t2, c) matches EqAction::Fail(e) && is_tolerated(e) ==> {
            &&& !(t1 is File || t1 is Dir)
            &&& !(t2 is File || t2 is Dir)
        },
        (t1 is File && t2 is Dir) || (t1 is Dir && t2 is File) ==> (pair_action(t1, t2, c) matches EqAction::Fail(e) && !is_tolerated(e)),
{
}

} // verus!

verus! {

/// The answers at the conflict prompt pick a side by position: an empty answer,
/// `1` or `3` remove the first path of the pair (the original, when storing);
/// `2` or `4` the second (the stored copy, when storing); `3` and `4`, and only
/// they, settle all later conflicts; any other answer selects nothing.
pub proof fn lemma_answers_pick_a_side(answer: Seq<char>, first: String, second: String)
    ensures
        (answer == Seq::<char>::empty() || answer == seq!['1'] || answer == seq!['3']) ==> (
        choice_for(answer) matches Some(c) && settle(first, second, c) == first),
        (answer == seq!['2'] || answer == seq!['4']) ==> (choice_for(answer) matches Some(c)
            && settle(first, second, c) == second),
        (answer == seq!['3'] || answer == seq!['4']) <==> (choice_for(answer) matches Some(c) && (
        c is TakeStoreAll || c is TakeTargetAll)),
        choice_for(answer) is None <==> !(answer == Seq::<char>::empty() || answer == seq!['1']
            || answer == seq!['2'] || answer == seq!['3'] || answer == seq!['4']),
        choice_for(answer) matches Some(c) ==> !(c is NoChoice),
{
    let (one, two, three, four) = (seq!['1'], seq!['2'], seq!['3'], seq!['4']);
    assert(one[0] == '1' && two[0] == '2' && three[0] == '3' && four[0] == '4');
    assert(one != two && one != three && one != four && two != three && two != four && three
        != four);
    assert(one.len() == 1 && Seq::<char>::empty().len() == 0);
}

/// Which file a settled conflict removes depends only on the side the choice
/// keeps: keeping the store removes the first path, keeping the target the second.
pub proof fn lemma_settle_by_side(first: String, second: String, c: UserChoice)
    ensures
        (c is TakeStore || c is TakeStoreAll) ==> settle(first, second, c) == first,
        (c is TakeTarget || c is TakeTargetAll) ==> settle(first, second, c) == second,
{
}

/// A conflict between two files is put to the user under every choice but the
/// two for all conflicts, showing the first file; `3` (store for all) then
/// removes the first file and `4` (target for all) the second without asking.
pub proof fn lemma_conflict_asked_unless_settled_for_all(p1: String, p2: String, c: UserChoice)
    ensures
        (pair_action(PathType::File(p1), PathType::File(p2), c) is Ask) <==> !(c is TakeStoreAll
            || c is TakeTargetAll),
        !(c is TakeStoreAll || c is TakeTargetAll) ==> pair_action(
            PathType::File(p1),
            PathType::File(p2),
            c,
        ) == (EqAction::Ask { shown: p1 }),
        c is TakeStoreAll ==> pair_action(PathType::File(p1), PathType::File(p2), c) == (
        EqAction::RemoveFile { path: p1 }),
        c is TakeTargetAll ==> pair_action(PathType::File(p1), PathType::File(p2), c) == (
        EqAction::RemoveFile { path: p2 }),
{
}

/// Every name listed in either directory yields exactly one pair of children:
/// the name joined onto both directories; the pairs are as many as the distinct
/// names.
pub proof fn lemma_every_child_is_paired(
    first: Seq<char>,
    second: Seq<char>,
    names1: Seq<Seq<char>>,
    names2: Seq<Seq<char>>,
)
    ensures
        forall|n: Seq<char>|
            (names1.contains(n) || names2.contains(n)) ==> #[trigger] joined_pairs(
                first,
                second,
                distinct(names1 + names2),
            ).contains((joined(first, n), joined(second, n))),
        forall|i: int|
            0 <= i < distinct(names1 + names2).len() ==> (names1.contains(
                #[trigger] distinct(names1 + names2)[i],
            ) || names2.contains(distinct(names1 + names2)[i])),
        forall|i: int|
            0 <= i < distinct(names1 + names2).len() ==> #[trigger] joined_pairs(
                first,
                second,
                distinct(names1 + names2),
            )[i] == (
                joined(first, distinct(names1 + names2)[i]),
                joined(second, distinct(names1 + names2)[i]),
            ),
        joined_pairs(first, second, distinct(names1 + names2)).len() == distinct(
            names1 + names2,
        ).len(),
        distinct(names1 + names2).no_duplicates(),
{
    let all = names1 + names2;
    let d = distinct(all);
    let jp = joined_pairs(first, second, d);
    lemma_distinct(all);
    assert forall|n: Seq<char>|
        names1.contains(n) || names2.contains(n) implies #[trigger] jp.contains(
        (joined(first, n), joined(second, n)),
    ) by {
        if names1.contains(n) {
            let j = choose|j: int| 0 <= j < names1.len() && names1[j] == n;
            assert(all[j] == n);
        } else {
            let j = choose|j: int| 0 <= j < names2.len() && names2[j] == n;
            assert(all[names1.len() + j] == n);
        }
        assert(all.contains(n));
        assert(d.contains(n));
        let k = choose|k: int| 0 <= k < d.len() && d[k] == n;
        assert(jp[k] == (joined(first, n), joined(second, n)));
    }
    assert forall|i: int| 0 <= i < d.len() implies (names1.contains(#[trigger] d[i])
        || names2.contains(d[i])) by {
        let n = d[i];
        assert(d.contains(n));
        assert(all.contains(n));
        let j = choose|j: int| 0 <= j < all.len() && all[j] == n;
        if j < names1.len() {
            assert(names1[j] == n);
        } else {
            assert(names2[j - names1.len()] == n);
        }
    }
    assert forall|i: int| 0 <= i < d.len() implies #[trigger] jp[i] == (
        joined(first, d[i]),
        joined(second, d[i]),
    ) by {}
}

} // verus!
