use vstd::prelude::*;

verus! {

/// The text of a difference between two files.
#[derive(Debug)]
pub struct DiffText<'f> {
    pub text: &'f Vec<u8>,
}

/// How a destination file compares with the file generated for it.
#[derive(Debug, PartialEq, Eq)]
pub enum DiffStatus {
    NoChanges,
    /// The destination does not exist yet.
    NewFile,
    /// The files differ; the output of `diff`.
    Changed(Vec<u8>),
    /// `diff` reported trouble.
    Failed,
}

/// The status that the exit code of `diff` stands for: 0 means equal files,
/// 1 means different files (with the differences), anything else trouble.
pub fn status_from_exit_code(code: i32, stdout: Vec<u8>) -> (s: DiffStatus)
    ensures
        code == 0 ==> s == DiffStatus::NoChanges,
        code == 1 ==> s == DiffStatus::Changed(stdout),
        code != 0 && code != 1 ==> s == DiffStatus::Failed,
{
    match code {
        1 => DiffStatus::Changed(stdout),
        2 => DiffStatus::Failed,
        0 => DiffStatus::NoChanges,
        _ => DiffStatus::Failed,
    }
}

} // verus!
