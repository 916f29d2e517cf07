use vstd::prelude::*;
use crate::cmd::{ends_with, starts_at_root, which_error_text, which_program};
use crate::error::DrtError;
use crate::files::{DestFile, Mode, SrcFile};
use crate::template::{expand_line, has_placeholder, is_first_placeholder, first_placeholder,
    lemma_first_placeholder_exists, replace_line, ChangeString};
use crate::text::{joined, law_split_joined, split_char, split_on, str_equal, views};
use crate::vars::Vars;

verus! {

/// The kind of item that a command-line word starts.
#[derive(Debug, Clone, Copy, PartialEq, Eq)]
pub enum Type {
    /// `t template output`
    Template,
    /// `x command words...`
    Execute,
    /// `v key value`
    Variable,
    Unknown,
}

/// The kind that a word names.
pub open spec fn type_of(s: Seq<char>) -> Type {
    if s == "t"@ {
        Type::Template
    } else if s == "x"@ {
        Type::Execute
    } else if s == "v"@ {
        Type::Variable
    } else {
        Type::Unknown
    }
}

/// The kind that `input` names.
pub fn parse_type(input: &str) -> (t: Type)
    ensures
        t == type_of(input@),
{
    if str_equal(input, "t") {
        Type::Template
    } else if str_equal(input, "x") {
        Type::Execute
    } else if str_equal(input, "v") {
        Type::Variable
    } else {
        Type::Unknown
    }
}

/// One item of the command line.
#[derive(Debug)]
pub enum Action {
    /// Generate the second file from the first, a template.
    Template(String, String),
    /// Run a command.
    Execute(String),
    /// Nothing to do (a variable was bound).
    Nothing,
}

/// A command line that cannot be read.
#[derive(Debug, PartialEq, Eq)]
pub enum ArgError {
    /// A word is missing; the message says which.
    Missing(String),
    /// A word names no kind of item.
    UnknownType(String),
}

/// The messages for missing words.
pub open spec fn missing_template() -> Seq<char> {
    "expected template: tp template output"@
}

pub open spec fn missing_output() -> Seq<char> {
    "expected output: tp template output"@
}

pub open spec fn missing_key() -> Seq<char> {
    "expected key: v key value"@
}

pub open spec fn missing_value() -> Seq<char> {
    "expected value: v key value"@
}

/// The command made of the words after `x`: each word is appended, after a
/// space if the command so far is not empty.
pub open spec fn command_text(words: Seq<Seq<char>>) -> Seq<char>
    decreases words.len(),
{
    if words.len() == 0 {
        Seq::empty()
    } else {
        let so_far = command_text(words.drop_last());
        if so_far.len() == 0 {
            words.last()
        } else {
            so_far + " "@ + words.last()
        }
    }
}

/// For words that are not empty, the command is the words joined by spaces.
pub proof fn lemma_command_text_joined(words: Seq<Seq<char>>)
    requires
        forall|i: int| 0 <= i < words.len() ==> (#[trigger] words[i]).len() > 0,
    ensures
        command_text(words) == joined(words, " "@),
        words.len() > 0 ==> command_text(words).len() > 0,
    decreases words.len(),
{
    if words.len() > 0 {
        let init = words.drop_last();
        assert forall|i: int| 0 <= i < init.len() implies (#[trigger] init[i]).len() > 0 by {
            assert(init[i] == words[i]);
        }
        lemma_command_text_joined(init);
        assert(words.last().len() > 0);
        if words.len() == 1 {
            assert(init.len() == 0);
        }
    }
}

/// Reads the item that starts at word `pos` and returns it with the position
/// of the next item. A variable is bound in `vars` at once; a command takes
/// all the words that are left (see `command_text`).
pub fn next_action(tokens: &Vec<String>, pos: usize, vars: &mut Vars) -> (r: Result<(Action, usize), ArgError>)
    requires
        pos < tokens@.len(),
        old(vars).wf(),
    ensures
        final(vars).wf(),
        ({
            let ts = views(tokens@);
            let n = ts.len() as int;
            match type_of(ts[pos as int]) {
                Type::Template => if pos + 1 >= n {
                    r matches Err(ArgError::Missing(m)) && m@ == missing_template() && final(vars)@ == old(vars)@
                } else if pos + 2 >= n {
                    r matches Err(ArgError::Missing(m)) && m@ == missing_output() && final(vars)@ == old(vars)@
                } else {
                    &&& r matches Ok((Action::Template(a, b), next))
                    &&& a@ == ts[pos + 1] && b@ == ts[pos + 2] && next == pos + 3
                    &&& final(vars)@ == old(vars)@
                },
                Type::Variable => if pos + 1 >= n {
                    r matches Err(ArgError::Missing(m)) && m@ == missing_key() && final(vars)@ == old(vars)@
                } else if pos + 2 >= n {
                    r matches Err(ArgError::Missing(m)) && m@ == missing_value() && final(vars)@ == old(vars)@
                } else {
                    &&& r matches Ok((Action::Nothing, next))
                    &&& next == pos + 3
                    &&& final(vars)@ == old(vars)@.insert(ts[pos + 1], ts[pos + 2])
                },
                Type::Execute => {
                    &&& r matches Ok((Action::Execute(c), next))
                    &&& c@ == command_text(ts.subrange(pos + 1, n))
                    &&& next == n
                    &&& final(vars)@ == old(vars)@
                },
                Type::Unknown => r matches Err(ArgError::UnknownType(w)) && w@ == ts[pos as int] && final(vars)@ == old(vars)@,
            }
        }),
{
    let n = tokens.len();
    let t = parse_type(tokens[pos].as_str());
    match t {
        Type::Template => {
            if pos + 1 >= n {
                return Err(ArgError::Missing(String::from_str("expected template: tp template output")));
            }
            if pos + 2 >= n {
                return Err(ArgError::Missing(String::from_str("expected output: tp template output")));
            }
            Ok((Action::Template(tokens[pos + 1].clone(), tokens[pos + 2].clone()), pos + 3))
        },
        Type::Variable => {
            if pos + 1 >= n {
                return Err(ArgError::Missing(String::from_str("expected key: v key value")));
            }
            if pos + 2 >= n {
                return Err(ArgError::Missing(String::from_str("expected value: v key value")));
            }
            vars.insert(tokens[pos + 1].as_str(), tokens[pos + 2].as_str());
            Ok((Action::Nothing, pos + 3))
        },
        Type::Execute => {
            let mut cmd = String::new();
            let mut i = pos + 1;
            proof {
                assert(views(tokens@).subrange(pos + 1, i as int) =~= Seq::<Seq<char>>::empty());
            }
            while i < n
                invariant
                    pos + 1 <= i <= n,
                    n == tokens@.len(),
                    cmd@ == command_text(views(tokens@).subrange(pos + 1, i as int)),
                decreases n - i,
            {
                let ghost ws = views(tokens@).subrange(pos + 1, i + 1);
                proof {
                    assert(ws.drop_last() =~= views(tokens@).subrange(pos + 1, i as int));
                    assert(ws.last() == tokens@[i as int]@);
                }
                if cmd.as_str().is_empty() {
                    cmd.append(tokens[i].as_str());
                } else {
                    cmd.append(" ");
                    cmd.append(tokens[i].as_str());
                }
                i = i + 1;
            }
            Ok((Action::Execute(cmd), n))
        },
        Type::Unknown => Err(ArgError::UnknownType(tokens[pos].clone())),
    }
}

/// The mode that the flags ask for: `--interactive` wins, then `--active`
/// or the `DRT_ACTIVE` environment variable; otherwise only report.
pub fn mode_from_flags(interactive: bool, active: bool, env_active: bool) -> (m: Mode)
    ensures
        m == if interactive {
            Mode::Interactive
        } else if active || env_active {
            Mode::Active
        } else {
            Mode::Passive
        },
{
    if interactive {
        Mode::Interactive
    } else if active || env_active {
        Mode::Active
    } else {
        Mode::Passive
    }
}

/// How running a command ended, as far as the whole run is concerned.
#[derive(Debug, Clone, Copy, PartialEq, Eq)]
pub enum RunError {
    Error,
    Warn,
}

impl RunError {
    /// A short description.
    pub fn description(&self) -> (s: String)
        ensures
            s@ == match *self {
                RunError::Warn => "Warning(s)"@,
                RunError::Error => "Error(s)"@,
            },
    {
        match self {
            RunError::Warn => String::from_str("Warning(s)"),
            RunError::Error => String::from_str("Error(s)"),
        }
    }
}

/// The next step in handling a command.
#[derive(Debug, PartialEq, Eq)]
pub enum ExecStep {
    /// Ask the user this question and pass the answer to `execute_interactive`.
    Ask(String),
    /// Look this program up on the search path and report it
    /// (`lookup_program`).
    Lookup(String),
    /// Run this program with these arguments (see `run_outcome`).
    Run(String, Vec<String>),
    /// The user declined this command: report it with `decline`.
    ReportWould(String),
}

/// The question asked before a command runs.
pub open spec fn run_question(cmd: Seq<char>) -> Seq<char> {
    "run (y/n): "@ + cmd
}

/// `s` is the step that `execute` takes for `cmd` in `mode`: ask first,
/// only look the program up, or run it, with the words of `cmd` split at
/// each space.
pub open spec fn is_exec_step(mode: Mode, cmd: Seq<char>, s: ExecStep) -> bool {
    let words = split_on(cmd, ' ');
    match mode {
        Mode::Interactive => s matches ExecStep::Ask(q) && q@ == run_question(cmd),
        Mode::Passive => s matches ExecStep::Lookup(p) && p@ == words[0],
        Mode::Active => s matches ExecStep::Run(p, args) && p@ == words[0] && views(args@) == words.drop_first(),
    }
}

/// The program and the arguments of a command, split at each space.
pub fn split_command(cmd: &str) -> (r: (String, Vec<String>))
    ensures
        r.0@ == split_on(cmd@, ' ')[0],
        views(r.1@) == split_on(cmd@, ' ').drop_first(),
{
    let mut parts = split_char(cmd, ' ');
    let ghost all = parts@;
    let program = parts.remove(0);
    proof {
        assert(views(parts@) =~= views(all).drop_first());
    }
    (program, parts)
}

/// The question asked before `cmd` runs.
pub fn run_question_text(cmd: &str) -> (q: String)
    ensures
        q@ == run_question(cmd@),
{
    String::from_str("run (y/n): ").concat(cmd)
}

/// How `cmd` is handled in `mode`: the default mode only looks the program
/// up, the interactive mode asks, the active mode runs it.
pub fn execute(mode: Mode, cmd: &str) -> (s: ExecStep)
    ensures
        is_exec_step(mode, cmd@, s),
        // only the active mode runs a command without asking
        s is Run ==> mode == Mode::Active,
{
    match mode {
        Mode::Interactive => ExecStep::Ask(run_question_text(cmd)),
        Mode::Passive => {
            let (program, _args) = split_command(cmd);
            ExecStep::Lookup(program)
        },
        Mode::Active => {
            let (program, args) = split_command(cmd);
            ExecStep::Run(program, args)
        },
    }
}

/// How `cmd` is handled after the user answered: `n` declines, `y` runs it,
/// anything else asks again.
pub fn execute_interactive(cmd: &str, answer: char) -> (s: ExecStep)
    ensures
        answer == 'n' ==> (s matches ExecStep::ReportWould(c) && c@ == cmd@),
        answer == 'y' ==> is_exec_step(Mode::Active, cmd@, s),
        answer != 'n' && answer != 'y' ==> is_exec_step(Mode::Interactive, cmd@, s),
{
    if answer == 'n' {
        ExecStep::ReportWould(cmd.to_owned())
    } else if answer == 'y' {
        execute(Mode::Active, cmd)
    } else {
        execute(Mode::Interactive, cmd)
    }
}

/// The line that reports a command that would run.
pub open spec fn would_run_line(cmd: Seq<char>) -> Seq<char> {
    "WOULD: run  "@ + cmd
}

/// The line that reports a program that was not found, with the reason.
pub open spec fn not_executable_line(reason: Seq<char>) -> Seq<char> {
    "Not Executable:  "@ + reason
}

/// The report and the outcome of looking up the program of `cmd`, given
/// what the lookup found or why it failed: a found program reports that
/// `cmd` would run and hands back the program's path; a missing one is
/// reported and is a warning.
pub fn lookup_outcome(cmd: &str, found: Result<String, String>) -> (r: (String, Result<String, RunError>))
    ensures
        found matches Ok(path) ==> r.0@ == would_run_line(cmd@) && r.1 == Ok::<String, RunError>(path),
        found matches Err(reason) ==> r.0@ == not_executable_line(reason@) && r.1 == Err::<String, RunError>(RunError::Warn),
{
    match found {
        Ok(path) => (String::from_str("WOULD: run  ").concat(cmd), Ok(path)),
        Err(reason) => (String::from_str("Not Executable:  ").concat(reason.as_str()), Err(RunError::Warn)),
    }
}

/// The report and the outcome of looking up `program`, the program of
/// `cmd`, on the search path: as `lookup_outcome` says, for whatever the
/// lookup of `program` found. A found path of a name without `/` ends with
/// that name; a name that starts with `/` is found as itself; a program
/// that was not found is reported with the lookup's own error text.
pub fn lookup_program(cmd: &str, program: &str) -> (r: (String, Result<String, RunError>))
    ensures
        r.1 matches Ok(p) ==> r.0@ == would_run_line(cmd@)
            && (!program@.contains('/') ==> ends_with(p@, program@))
            && (starts_at_root(program@) ==> p@ == program@),
        r.1 is Err ==> r.1 == Err::<String, RunError>(RunError::Warn)
            && exists|reason: Seq<char>| which_error_text(reason) && r.0@ == #[trigger] not_executable_line(reason),
{
    let found = which_program(program);
    let r = lookup_outcome(cmd, found);
    proof {
        if r.1 is Err {
            let reason = found->Err_0@;
            assert(r.0@ == not_executable_line(reason));
        }
    }
    r
}

/// The report and the outcome of a command that the user declined to run:
/// it is reported as one that would run, and the outcome is a warning.
pub fn decline(cmd: &str) -> (r: (String, Result<(), RunError>))
    ensures
        r.0@ == would_run_line(cmd@),
        r.1 == Err::<(), RunError>(RunError::Warn),
{
    (String::from_str("WOULD: run  ").concat(cmd), Err(RunError::Warn))
}

/// The outcome of a command that ran: any exit code is fine, but a command
/// ended without one is a warning.
pub fn run_outcome(code: Option<i32>) -> (r: Result<(), RunError>)
    ensures
        code is Some ==> r is Ok,
        code is None ==> r == Err::<(), RunError>(RunError::Warn),
{
    match code {
        Some(_) => Ok(()),
        None => Err(RunError::Warn),
    }
}

/// What an item of the command line comes to.
#[derive(Debug)]
pub enum ActionStep {
    /// Generate the destination from the template.
    ProcessTemplate(SrcFile, DestFile),
    /// Handle this command (its placeholder filled in), starting with this step.
    Execute(String, ExecStep),
    /// Nothing to do.
    Nothing,
}

/// What an item comes to in `mode`: a template is processed; a command has
/// its first placeholder filled in from `vars` (a name that is not bound is
/// an error) and is then handled as `execute` says.
pub fn do_action(mode: Mode, vars: &Vars, action: Action) -> (r: Result<ActionStep, DrtError>)
    requires
        vars.wf(),
    ensures
        action matches Action::Template(t, o) ==> (r matches Ok(ActionStep::ProcessTemplate(s, d)) && s@ == t@ && d@ == o@),
        action matches Action::Nothing ==> (r matches Ok(ActionStep::Nothing)),
        action matches Action::Execute(cmd) ==> match expand_line(vars@, cmd@) {
            Ok(c) => r matches Ok(ActionStep::Execute(t, s)) && t@ == c && is_exec_step(mode, c, s),
            Err(k) => r matches Err(DrtError::VarNotFound(name)) && name@ == k,
        },
{
    match action {
        Action::Template(template_file_name, output_file_name) => {
            Ok(ActionStep::ProcessTemplate(SrcFile::new(template_file_name), DestFile::new(output_file_name)))
        },
        Action::Execute(cmd) => {
            let ghost c = cmd@;
            proof {
                if has_placeholder(c) {
                    lemma_first_placeholder_exists(c);
                    let fp = first_placeholder(c);
                    assert(is_first_placeholder(c, fp.0, fp.1));
                }
            }
            let the_cmd = match replace_line(vars, cmd.clone()) {
                Ok(ChangeString::Changed(new_cmd)) => new_cmd,
                Ok(ChangeString::Unchanged) => cmd,
                Err(e) => {
                    return Err(e);
                },
            };
            let step = execute(mode, the_cmd.as_str());
            Ok(ActionStep::Execute(the_cmd, step))
        },
        Action::Nothing => Ok(ActionStep::Nothing),
    }
}


/// A command given as non-empty words without spaces, as `next_action`
/// puts them together, is run in the active mode as the program of the
/// first word with the other words as its arguments.
pub proof fn law_command_words_run_as_given(words: Seq<Seq<char>>, s: ExecStep)
    requires
        words.len() >= 1,
        forall|i: int| 0 <= i < words.len() ==> !(#[trigger] words[i]).contains(' '),
        forall|i: int| 0 <= i < words.len() ==> (#[trigger] words[i]).len() > 0,
        is_exec_step(Mode::Active, command_text(words), s),
    ensures
        s matches ExecStep::Run(p, args) && p@ == words[0] && views(args@) == words.drop_first(),
{
    reveal_strlit(" ");
    assert(" "@ =~= seq![' ']);
    lemma_command_text_joined(words);
    law_split_joined(words, ' ');
}

} // verus!
