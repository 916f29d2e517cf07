use vstd::prelude::*;
use crate::error::DrtError;
use crate::files::{path_parent, path_parent_of, DestFile, Mode};

verus! {

/// The next step in finding out whether a directory may be used: the
/// directory, or if it does not exist yet its nearest existing ancestor,
/// must be one that may be entered.
#[derive(Debug, PartialEq, Eq)]
pub enum DirCheck {
    /// Look at this path on disk: report whether it exists and, if so,
    /// whether it may be entered, to `can_create_dir`.
    Probe(String),
    /// The answer: the existing directory that may be used, or why not.
    Done(Result<String, DrtError>),
}

/// `c` is the step that starts a check from `start`.
pub open spec fn starts_check(start: Option<Seq<char>>, c: DirCheck) -> bool {
    match start {
        None => c matches DirCheck::Done(Err(DrtError::PathNotFound0)),
        Some(d) => c matches DirCheck::Probe(p) && p@ == d,
    }
}

/// Starts the check at `maybe_dir`; with no directory there is nothing to
/// look at.
pub fn can_create_dir_maybe(maybe_dir: Option<String>) -> (c: DirCheck)
    ensures
        starts_check(
            match maybe_dir {
                Some(d) => Some(d@),
                None => None,
            },
            c,
        ),
{
    match maybe_dir {
        Some(dir) => DirCheck::Probe(dir),
        None => DirCheck::Done(Err(DrtError::PathNotFound0)),
    }
}

/// One step of the check at `dir`, given what the disk says of it: an
/// existing directory ends the check, which succeeds if it may be entered;
/// a missing one passes the check on to its parent.
pub fn can_create_dir(dir: String, exists: bool, executable: bool) -> (c: DirCheck)
    ensures
        exists && executable ==> (c matches DirCheck::Done(Ok(d)) && d@ == dir@),
        exists && !executable ==> (c matches DirCheck::Done(Err(DrtError::InsufficientPrivileges(p))) && p@ == dir@),
        !exists ==> starts_check(path_parent_of(dir@), c),
        // the check climbs towards the root, so it ends
        !exists ==> (c matches DirCheck::Probe(p) ==> p@.len() < dir@.len()),
{
    if exists {
        if executable {
            DirCheck::Done(Ok(dir))
        } else {
            DirCheck::Done(Err(DrtError::InsufficientPrivileges(dir)))
        }
    } else {
        can_create_dir_maybe(path_parent(dir.as_str()))
    }
}

/// The next step in making sure that a directory exists.
#[derive(Debug, PartialEq, Eq)]
pub enum CreateDir {
    /// Look whether this directory exists, and report it to `create_dir`.
    CheckExists(String),
    /// Ask the user the question (second) about the directory (first), and
    /// pass the answer to `create_dir_answer`.
    Ask(String, String),
    /// Create this directory with its missing parents, and report the
    /// outcome to `made_dirs`.
    MakeDirs(String),
    /// The directory is not created: run this check, and if it succeeds
    /// report the creation as skipped.
    CheckSkipped(DirCheck),
    /// The directory exists: run this check of whether it may be used; its
    /// answer is the result.
    CheckAccess(DirCheck),
    /// The result.
    Done(Result<String, DrtError>),
}

/// The question asked before a directory is created.
pub open spec fn create_question(dir: Seq<char>) -> Seq<char> {
    "create directory "@ + dir + " (y/n)"@
}

/// Starts making sure that `maybe_dir` exists.
pub fn create_dir_maybe(mode: Mode, maybe_dir: Option<String>) -> (c: CreateDir)
    ensures
        maybe_dir is None ==> c matches CreateDir::Done(Err(DrtError::PathNotFound0)),
        maybe_dir matches Some(d) ==> (c matches CreateDir::CheckExists(p) && p@ == d@),
{
    match maybe_dir {
        Some(dir) => CreateDir::CheckExists(dir),
        None => CreateDir::Done(Err(DrtError::PathNotFound0)),
    }
}

/// The step for `dir` once it is known whether it exists. `Passive` only
/// checks: that an existing directory may be used, or that a missing one
/// could be created. For an existing directory there is nothing else to
/// do; a missing one `Active` creates, and `Interactive` asks first.
pub fn create_dir(mode: Mode, dir: String, exists: bool) -> (c: CreateDir)
    ensures
        exists && mode != Mode::Passive ==> (c matches CreateDir::Done(Ok(d)) && d@ == dir@),
        exists && mode == Mode::Passive ==> (c matches CreateDir::CheckAccess(k) && starts_check(Some(dir@), k)),
        !exists && mode == Mode::Passive ==> (c matches CreateDir::CheckSkipped(k) && starts_check(path_parent_of(dir@), k)),
        !exists && mode == Mode::Active ==> (c matches CreateDir::MakeDirs(d) && d@ == dir@),
        !exists && mode == Mode::Interactive ==> (c matches CreateDir::Ask(d, q) && d@ == dir@ && q@ == create_question(dir@)),
        // only the active mode makes a directory without asking
        c is MakeDirs ==> mode == Mode::Active,
{
    if exists {
        match mode {
            Mode::Passive => CreateDir::CheckAccess(DirCheck::Probe(dir)),
            _ => CreateDir::Done(Ok(dir)),
        }
    } else {
        match mode {
            Mode::Passive => create_dir_answer(dir, 'n'),
            Mode::Active => create_dir_answer(dir, 'y'),
            Mode::Interactive => {
                let q = create_question_text(dir.as_str());
                CreateDir::Ask(dir, q)
            },
        }
    }
}

/// The question asked before `dir` is created.
pub fn create_question_text(dir: &str) -> (q: String)
    ensures
        q@ == create_question(dir@),
{
    String::from_str("create directory ").concat(dir).concat(" (y/n)")
}

/// The step for `dir` after the user answered: `n` declines and only checks
/// that it could be created, `y` creates it, anything else asks again.
pub fn create_dir_answer(dir: String, answer: char) -> (c: CreateDir)
    ensures
        answer == 'n' ==> (c matches CreateDir::CheckSkipped(k) && starts_check(path_parent_of(dir@), k)),
        answer == 'y' ==> (c matches CreateDir::MakeDirs(d) && d@ == dir@),
        answer != 'n' && answer != 'y' ==> (c matches CreateDir::CheckExists(d) && d@ == dir@),
{
    if answer == 'n' {
        CreateDir::CheckSkipped(can_create_dir_maybe(path_parent(dir.as_str())))
    } else if answer == 'y' {
        CreateDir::MakeDirs(dir)
    } else {
        CreateDir::CheckExists(dir)
    }
}

/// The result once the directories were made, given the system's error
/// message if that failed.
pub fn made_dirs(dir: String, outcome: Result<(), String>) -> (r: Result<String, DrtError>)
    ensures
        outcome is Ok ==> (r matches Ok(d) && d@ == dir@),
        outcome matches Err(m) ==> (r matches Err(DrtError::IoError(e)) && e@ == m@),
{
    match outcome {
        Ok(()) => Ok(dir),
        Err(m) => Err(DrtError::IoError(m)),
    }
}

impl DestFile {
    /// Starts making sure that the directory holding the file exists.
    pub fn mkdirs(&self, mode: Mode) -> (c: CreateDir)
        ensures
            path_parent_of(self@) is None ==> c matches CreateDir::Done(Err(DrtError::PathNotFound0)),
            path_parent_of(self@) matches Some(d) ==> (c matches CreateDir::CheckExists(p) && p@ == d),
    {
        create_dir_maybe(mode, self.parent())
    }
}

} // verus!
