use vstd::prelude::*;
use crate::diff::DiffStatus;
use crate::error::{action_line, log_path_action, DrtError, Verb};
use crate::files::{DestFile, GenFile, Mode};

verus! {

/// What to do with a destination file once it was compared with the file
/// generated from its template.
#[derive(Debug, PartialEq, Eq)]
pub enum TemplateStep {
    /// Report that nothing changes.
    NoChange,
    /// The comparison failed.
    Failed,
    /// Report that the destination would be created.
    ReportCreate,
    /// Report that the destination would be updated, with the differences.
    ReportDiff(Vec<u8>),
    /// Copy the generated file over the destination.
    Copy,
    /// Copy the generated file with `cp -i`, which asks before overwriting.
    CopyInteractive,
    /// Ask the user what to do (see `update_question`), and pass the answer
    /// to `update_from_template_interactive` with these differences.
    Ask(Vec<u8>),
    /// Report that the update was skipped.
    Skip,
    /// Merge the destination into the template in an editor.
    MergeIntoTemplate,
    /// Merge the generated file and the destination in an editor.
    MergeToTemplate,
    /// Compare again and decide again, interactively.
    Restart,
}

/// The step is one that changes a file or starts an editor.
pub open spec fn changes_files(s: TemplateStep) -> bool {
    ||| s is Copy
    ||| s is CopyInteractive
    ||| s is MergeIntoTemplate
    ||| s is MergeToTemplate
}

/// What to do with the destination, given how it compares: a new file is
/// created, a changed one updated, each as the mode says.
pub fn update_from_template(mode: Mode, status: DiffStatus) -> (s: TemplateStep)
    ensures
        status == DiffStatus::NoChanges ==> s == TemplateStep::NoChange,
        status == DiffStatus::Failed ==> s == TemplateStep::Failed,
        status == DiffStatus::NewFile ==> s == match mode {
            Mode::Passive => TemplateStep::ReportCreate,
            Mode::Active => TemplateStep::Copy,
            Mode::Interactive => TemplateStep::CopyInteractive,
        },
        status matches DiffStatus::Changed(t) ==> s == match mode {
            Mode::Passive => TemplateStep::ReportDiff(t),
            Mode::Active => TemplateStep::Copy,
            Mode::Interactive => TemplateStep::Ask(t),
        },
        // the default mode only reports
        mode == Mode::Passive ==> !changes_files(s),
        // the interactive mode does not overwrite without asking
        mode == Mode::Interactive ==> !(s is Copy),
{
    match status {
        DiffStatus::NoChanges => TemplateStep::NoChange,
        DiffStatus::Failed => TemplateStep::Failed,
        DiffStatus::NewFile => match mode {
            Mode::Passive => TemplateStep::ReportCreate,
            Mode::Active => TemplateStep::Copy,
            Mode::Interactive => TemplateStep::CopyInteractive,
        },
        DiffStatus::Changed(difftext) => match mode {
            Mode::Passive => TemplateStep::ReportDiff(difftext),
            Mode::Active => TemplateStep::Copy,
            Mode::Interactive => TemplateStep::Ask(difftext),
        },
    }
}

/// What to do after the user answered the question about a changed
/// destination: `d` shows the differences, `c` continues (and `k` skips)
/// leaving the destination as it is, `t` merges into the template, `m`
/// merges in an editor, `o` overwrites; anything else starts over.
pub fn update_from_template_interactive(answer: char, difftext: Vec<u8>) -> (s: TemplateStep)
    ensures
        s == if answer == 'd' {
            TemplateStep::ReportDiff(difftext)
        } else if answer == 'c' || answer == 'k' {
            TemplateStep::Skip
        } else if answer == 't' {
            TemplateStep::MergeIntoTemplate
        } else if answer == 'm' {
            TemplateStep::MergeToTemplate
        } else if answer == 'o' {
            TemplateStep::Copy
        } else {
            TemplateStep::Restart
        },
{
    match answer {
        'd' => TemplateStep::ReportDiff(difftext),
        'c' | 'k' => TemplateStep::Skip,
        't' => TemplateStep::MergeIntoTemplate,
        'm' => TemplateStep::MergeToTemplate,
        'o' => TemplateStep::Copy,
        _ => TemplateStep::Restart,
    }
}

/// The question asked about a changed destination.
pub open spec fn update_question_text(gen: Seq<char>, dest: Seq<char>) -> Seq<char> {
    "files don't match: "@ + gen + " "@ + dest
        + " (o)verwrite / (m)erge[vimdiff] / (c)ontinue / (d)iff / merge to (t)emplate"@
}

/// The question asked about a changed destination.
pub fn update_question(gen: &GenFile, dest: &DestFile) -> (q: String)
    ensures
        q@ == update_question_text(gen@, dest@),
{
    String::from_str("files don't match: ").concat(gen.path()).concat(" ").concat(dest.path()).concat(
        " (o)verwrite / (m)erge[vimdiff] / (c)ontinue / (d)iff / merge to (t)emplate",
    )
}

/// Why an editor could not be run.
#[derive(Debug, PartialEq, Eq)]
pub enum SpawnFailure {
    /// The program was not found.
    NotFound,
    /// Another input/output error, with its message.
    Other(String),
}

/// The outcome of merging in the editor `exe`, given how running it went:
/// its exit code, or no code when a signal ended it, or why it did not run.
pub fn merge_outcome(exe: &str, run: Result<Option<i32>, SpawnFailure>) -> (r: Result<i32, DrtError>)
    ensures
        run matches Ok(Some(n)) ==> r == Ok::<i32, DrtError>(n),
        run matches Ok(None) ==> r == Err::<i32, DrtError>(DrtError::CmdExitedPrematurely),
        run matches Err(SpawnFailure::NotFound) ==> (r matches Err(DrtError::CommandNotFound(c)) && c@ == exe@),
        run matches Err(SpawnFailure::Other(m)) ==> (r matches Err(DrtError::IoError(e)) && e@ == m@),
{
    match run {
        Err(SpawnFailure::NotFound) => Err(DrtError::CommandNotFound(exe.to_owned())),
        Err(SpawnFailure::Other(m)) => Err(DrtError::IoError(m)),
        Ok(None) => Err(DrtError::CmdExitedPrematurely),
        Ok(Some(n)) => Ok(n),
    }
}


/// The line that reports a step on the destination `dest`: a creation or a
/// change that would be made, a creation made, or one skipped; other steps
/// report nothing of their own.
pub open spec fn report_text(step: TemplateStep, dest: Seq<char>) -> Option<Seq<char>> {
    match step {
        TemplateStep::ReportCreate => Some(action_line(Verb::WOULD, "create "@, dest)),
        TemplateStep::ReportDiff(_) => Some(action_line(Verb::WOULD, "modify"@, dest)),
        TemplateStep::Copy => Some(action_line(Verb::LIVE, "create "@, dest)),
        TemplateStep::Skip => Some(action_line(Verb::SKIPPED, "create "@, dest)),
        _ => None,
    }
}

/// The line that reports a step on `dest`, as in
/// `WOULD: create  template/out.config`.
pub fn report_line(step: &TemplateStep, dest: &DestFile) -> (r: Option<String>)
    ensures
        match report_text(*step, dest@) {
            Some(t) => r matches Some(line) && line@ == t,
            None => r is None,
        },
{
    match step {
        TemplateStep::ReportCreate => Some(log_path_action("create ", Verb::WOULD, dest.path())),
        TemplateStep::ReportDiff(_) => Some(log_path_action("modify", Verb::WOULD, dest.path())),
        TemplateStep::Copy => Some(log_path_action("create ", Verb::LIVE, dest.path())),
        TemplateStep::Skip => Some(log_path_action("create ", Verb::SKIPPED, dest.path())),
        _ => None,
    }
}


/// `t` starts with `p`.
pub open spec fn starts_with(t: Seq<char>, p: Seq<char>) -> bool {
    p.len() <= t.len() && t.subrange(0, p.len() as int) == p
}

/// A report says what its step does to the destination: only a step that
/// writes the destination is reported as `LIVE`, a skipped update as
/// `SKIPPED`, and a step that only looks as `WOULD`; each line names the
/// destination at its end.
pub proof fn law_report_says_what_the_step_does(step: TemplateStep, dest: Seq<char>)
    ensures
        step is Skip ==> report_text(step, dest) == Some("SKIPPED: create  "@ + dest),
        step is Copy ==> report_text(step, dest) == Some("LIVE: create  "@ + dest),
        step is ReportCreate ==> report_text(step, dest) == Some("WOULD: create  "@ + dest),
        step is ReportDiff ==> report_text(step, dest) == Some("WOULD: modify "@ + dest),
        report_text(step, dest) matches Some(t) ==> {
            &&& (starts_with(t, "LIVE:"@) <==> changes_files(step))
            &&& (starts_with(t, "SKIPPED:"@) <==> step is Skip)
            &&& (starts_with(t, "WOULD:"@) <==> (step is ReportCreate || step is ReportDiff))
            &&& t.subrange(t.len() - dest.len(), t.len() as int) == dest
        },
        !(step is Skip || step is Copy || step is ReportCreate || step is ReportDiff)
            ==> report_text(step, dest) is None,
{
    reveal_strlit("SKIPPED");
    reveal_strlit("LIVE");
    reveal_strlit("WOULD");
    reveal_strlit(": ");
    reveal_strlit("create ");
    reveal_strlit("modify");
    reveal_strlit(" ");
    reveal_strlit("SKIPPED: create  ");
    reveal_strlit("LIVE: create  ");
    reveal_strlit("WOULD: create  ");
    reveal_strlit("WOULD: modify ");
    reveal_strlit("LIVE:");
    reveal_strlit("SKIPPED:");
    reveal_strlit("WOULD:");
    match report_text(step, dest) {
        Some(t) => {
            let p = t.subrange(0, t.len() - dest.len());
            assert(t =~= p + dest);
            assert(t.subrange(t.len() - dest.len(), t.len() as int) =~= dest);
            if step is Skip {
                assert(t =~= "SKIPPED: create  "@ + dest);
                assert(t.subrange(0, 8) =~= "SKIPPED:"@);
                assert(t[0] == 'S');
            } else if step is Copy {
                assert(t =~= "LIVE: create  "@ + dest);
                assert(t.subrange(0, 5) =~= "LIVE:"@);
                assert(t[0] == 'L');
            } else if step is ReportCreate {
                assert(t =~= "WOULD: create  "@ + dest);
                assert(t.subrange(0, 6) =~= "WOULD:"@);
                assert(t[0] == 'W');
            } else {
                assert(t =~= "WOULD: modify "@ + dest);
                assert(t.subrange(0, 6) =~= "WOULD:"@);
                assert(t[0] == 'W');
            }
        },
        None => {},
    }
}

/// Whether an update goes on once the destination's directory was dealt
/// with. It goes on whatever happened to the directory, except that the
/// default mode, which checks before it reports, stops where the directory
/// may not be entered.
pub fn directory_ready(mode: Mode, dir: Result<String, DrtError>) -> (r: Result<(), DrtError>)
    ensures
        mode == Mode::Passive ==> (dir matches Err(DrtError::InsufficientPrivileges(p))
            ==> r == Err::<(), DrtError>(DrtError::InsufficientPrivileges(p))),
        !(mode == Mode::Passive && dir matches Err(DrtError::InsufficientPrivileges(_))) ==> r is Ok,
{
    match (mode, dir) {
        (Mode::Passive, Err(DrtError::InsufficientPrivileges(p))) => Err(DrtError::InsufficientPrivileges(p)),
        _ => Ok(()),
    }
}

} // verus!
