use vstd::prelude::*;
use vstd::utf8::{encode_utf8, valid_utf8};

verus! {

/// What a finished command printed and how it ended.
#[derive(Debug)]
pub struct ExecReturn {
    pub stdout: String,
    pub stderr: String,
    pub exit_code: Option<i32>,
}

/// How a destination compares with its source.
#[derive(Debug, Clone, Copy, PartialEq, Eq)]
pub enum DiffState {
    Equal,
    Create,
    Patch,
    FileNotFound,
}

/// How a destination compares with its source, with the differences.
#[derive(Debug)]
pub struct DiffResult {
    pub state: DiffState,
    pub diffstr: Option<String>,
}

/// The text whose UTF-8 encoding is `v`: `String::from_utf8`.
///
/// Trusted: the documentation says that it fails exactly when `v` is not
/// UTF-8, and otherwise gives the string made of those bytes; the contract
/// states both with vstd's `valid_utf8` and `encode_utf8`.
#[verifier::external_body]
fn string_from_utf8(v: Vec<u8>) -> (r: Option<String>)
    ensures
        r is Some <==> valid_utf8(v@),
        r matches Some(s) ==> encode_utf8(s@) == v@,
{
    String::from_utf8(v).ok()
}

/// The text of a command's output, which must be UTF-8.
fn output_text(v: Vec<u8>) -> (s: String)
    requires
        valid_utf8(v@),
    ensures
        encode_utf8(s@) == v@,
{
    match string_from_utf8(v) {
        Some(s) => s,
        None => {
            proof {
                assert(false);
            }
            String::new()
        },
    }
}

/// The result of a `diff` run that found differences, from what it printed.
pub fn output_to_diffresult(stdout: Vec<u8>) -> (r: DiffResult)
    requires
        valid_utf8(stdout@),
    ensures
        r.state == DiffState::Patch,
        r.diffstr matches Some(s) && encode_utf8(s@) == stdout@,
{
    DiffResult { state: DiffState::Patch, diffstr: Some(output_text(stdout)) }
}

/// The record of a finished command, from what it printed and its exit code.
pub fn output_to_execresult(stdout: Vec<u8>, stderr: Vec<u8>, exit_code: Option<i32>) -> (r: ExecReturn)
    requires
        valid_utf8(stdout@),
        valid_utf8(stderr@),
    ensures
        encode_utf8(r.stdout@) == stdout@,
        encode_utf8(r.stderr@) == stderr@,
        r.exit_code == exit_code,
{
    ExecReturn { stdout: output_text(stdout), stderr: output_text(stderr), exit_code: exit_code }
}

/// The next step in comparing `src` with `dst`.
#[derive(Debug)]
pub enum DiffPlan {
    /// Run `diff` on the two files.
    RunDiff,
    /// The comparison ends here.
    Done(Result<DiffResult, String>),
}

/// The message for a source that is missing.
pub open spec fn not_found_message(src: Seq<char>) -> Seq<char> {
    "file not found: "@ + src
}

/// How to compare `src` with `dst`, given which of them exist: a missing
/// source is an error, a missing destination is to be created, and two
/// existing files are compared by `diff`.
pub fn diff_plan(src: &str, src_exists: bool, dst_exists: bool) -> (p: DiffPlan)
    ensures
        !src_exists ==> (p matches DiffPlan::Done(Err(m)) && m@ == not_found_message(src@)),
        src_exists && !dst_exists ==> (p matches DiffPlan::Done(Ok(r)) && r.state == DiffState::Create && r.diffstr is None),
        src_exists && dst_exists ==> p is RunDiff,
{
    if !src_exists {
        DiffPlan::Done(Err(String::from_str("file not found: ").concat(src)))
    } else if !dst_exists {
        DiffPlan::Done(Ok(DiffResult { state: DiffState::Create, diffstr: None }))
    } else {
        DiffPlan::RunDiff
    }
}


/// How a path is recorded in a report: its text, or a conversion error for
/// a path that is not text.
#[derive(Debug, PartialEq, Eq)]
pub enum PathText {
    Text(String),
    ConversionError,
}

/// How a path is recorded, given its text if it has one.
pub fn path_text(p: Option<String>) -> (t: PathText)
    ensures
        p matches Some(s) ==> (t matches PathText::Text(x) && x@ == s@),
        p is None ==> t == PathText::ConversionError,
{
    match p {
        Some(s) => PathText::Text(s),
        None => PathText::ConversionError,
    }
}

} // verus!
