use vstd::prelude::*;

verus! {

/// What can go wrong while expanding templates, planning directories or
/// running commands.
#[derive(Debug, PartialEq, Eq)]
pub enum DrtError {
    Error,
    /// A template names a variable that was never bound.
    VarNotFound(String),
    /// A program could not be found on the search path.
    CommandNotFound(String),
    /// An input/output operation failed, with the system's message.
    IoError(String),
    /// A command was ended by a signal and gave no exit code.
    CmdExitedPrematurely,
    /// A path had no parent directory to look at.
    PathNotFound0,
    /// The nearest existing directory may not be entered.
    InsufficientPrivileges(String),
}

/// How an action was carried out: only reported, done, or skipped.
#[derive(Debug, Clone, Copy, PartialEq, Eq)]
pub enum Verb {
    WOULD,
    LIVE,
    SKIPPED,
}

/// The text printed for an error.
pub open spec fn error_text(e: DrtError) -> Seq<char> {
    match e {
        DrtError::Error => "Error"@,
        DrtError::VarNotFound(k) => "Variable not found: "@ + k@,
        DrtError::CommandNotFound(c) => "Command not found: "@ + c@,
        DrtError::IoError(m) => "IO error: "@ + m@,
        DrtError::CmdExitedPrematurely => "Command exited prematurely"@,
        DrtError::PathNotFound0 => "Path not found"@,
        DrtError::InsufficientPrivileges(p) => "Insufficient Privileges: "@ + p@,
    }
}

/// The label of a verb, as printed before an action.
pub open spec fn verb_text(v: Verb) -> Seq<char> {
    match v {
        Verb::WOULD => "WOULD"@,
        Verb::LIVE => "LIVE"@,
        Verb::SKIPPED => "SKIPPED"@,
    }
}

impl DrtError {
    /// The text printed for this error.
    pub fn message(&self) -> (s: String)
        ensures
            s@ == error_text(*self),
    {
        match self {
            DrtError::Error => String::from_str("Error"),
            DrtError::VarNotFound(k) => String::from_str("Variable not found: ").concat(k.as_str()),
            DrtError::CommandNotFound(c) => String::from_str("Command not found: ").concat(c.as_str()),
            DrtError::IoError(m) => String::from_str("IO error: ").concat(m.as_str()),
            DrtError::CmdExitedPrematurely => String::from_str("Command exited prematurely"),
            DrtError::PathNotFound0 => String::from_str("Path not found"),
            DrtError::InsufficientPrivileges(p) => String::from_str("Insufficient Privileges: ").concat(p.as_str()),
        }
    }
}

impl Verb {
    /// The label of this verb.
    pub fn label(&self) -> (s: String)
        ensures
            s@ == verb_text(*self),
    {
        match self {
            Verb::WOULD => String::from_str("WOULD"),
            Verb::LIVE => String::from_str("LIVE"),
            Verb::SKIPPED => String::from_str("SKIPPED"),
        }
    }
}

/// The line reported for an action on a path: the verb, a colon, the
/// action and the path, each separated by a space.
pub open spec fn action_line(verb: Verb, action: Seq<char>, path: Seq<char>) -> Seq<char> {
    verb_text(verb) + ": "@ + action + " "@ + path
}

/// The line reported for an action on a path.
pub fn log_path_action(action: &str, verb: Verb, path: &str) -> (s: String)
    ensures
        s@ == action_line(verb, action@, path@),
{
    verb.label().concat(": ").concat(action).concat(" ").concat(path)
}

} // verus!
