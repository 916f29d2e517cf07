use drt::cmd::{cmdline, exectable_full_path, exectable_full_path_which};
use drt::diff::{status_from_exit_code, DiffStatus};
use drt::drtrun::{drain_to, parse_type, split_assignment, Type};
use drt::error::{log_path_action, DrtError, Verb};
use drt::exec::{diff_plan, output_to_diffresult, output_to_execresult, path_text, DiffPlan, DiffState, PathText};
use drt::files::{DestFile, GenFile, Mode};
use drt::update::{
    merge_outcome, update_from_template, update_from_template_interactive, update_question, SpawnFailure,
    TemplateStep,
};
use drt::userinput::{answer_of, trim};

#[test]
fn cmdline_joins_with_spaces() {
    assert_eq!(cmdline(String::from("ls"), vec!["-l", "x"]), "ls -l x");
    assert_eq!(cmdline(String::from("ls"), vec![]), "ls");
}

#[test]
fn full_path_of_a_program() {
    assert_eq!(exectable_full_path_which("vim", Some(String::from("/usr/bin/vim"))), Ok(String::from("/usr/bin/vim")));
    assert_eq!(
        exectable_full_path_which("vim", None),
        Err(DrtError::CommandNotFound(String::from("vim")))
    );
    assert_eq!(
        exectable_full_path("no-such-program-drt-test"),
        Err(DrtError::CommandNotFound(String::from("no-such-program-drt-test")))
    );
    if let Ok(p) = exectable_full_path("sh") {
        assert!(p.ends_with("/sh"));
    }
    if let Ok(p) = exectable_full_path("/bin/sh") {
        assert_eq!(p, "/bin/sh");
    }
}

#[test]
fn diff_exit_codes() {
    assert_eq!(status_from_exit_code(0, vec![]), DiffStatus::NoChanges);
    assert_eq!(status_from_exit_code(1, vec![b'x']), DiffStatus::Changed(vec![b'x']));
    assert_eq!(status_from_exit_code(2, vec![]), DiffStatus::Failed);
    assert_eq!(status_from_exit_code(-1, vec![]), DiffStatus::Failed);
}

#[test]
fn update_in_each_mode() {
    assert_eq!(update_from_template(Mode::Passive, DiffStatus::NoChanges), TemplateStep::NoChange);
    assert_eq!(update_from_template(Mode::Active, DiffStatus::Failed), TemplateStep::Failed);
    assert_eq!(update_from_template(Mode::Passive, DiffStatus::NewFile), TemplateStep::ReportCreate);
    assert_eq!(update_from_template(Mode::Active, DiffStatus::NewFile), TemplateStep::Copy);
    assert_eq!(update_from_template(Mode::Interactive, DiffStatus::NewFile), TemplateStep::CopyInteractive);
    assert_eq!(
        update_from_template(Mode::Passive, DiffStatus::Changed(vec![1])),
        TemplateStep::ReportDiff(vec![1])
    );
    assert_eq!(update_from_template(Mode::Active, DiffStatus::Changed(vec![1])), TemplateStep::Copy);
    assert_eq!(update_from_template(Mode::Interactive, DiffStatus::Changed(vec![1])), TemplateStep::Ask(vec![1]));
}

#[test]
fn update_after_an_answer() {
    assert_eq!(update_from_template_interactive('d', vec![2]), TemplateStep::ReportDiff(vec![2]));
    assert_eq!(update_from_template_interactive('k', vec![]), TemplateStep::Skip);
    assert_eq!(update_from_template_interactive('c', vec![]), TemplateStep::Skip);
    assert_eq!(update_from_template_interactive('t', vec![]), TemplateStep::MergeIntoTemplate);
    assert_eq!(update_from_template_interactive('m', vec![]), TemplateStep::MergeToTemplate);
    assert_eq!(update_from_template_interactive('o', vec![]), TemplateStep::Copy);
    assert_eq!(update_from_template_interactive('z', vec![]), TemplateStep::Restart);
    let q = update_question(
        &GenFile::new(String::from("/tmp/.tmp1HfpM6")),
        &DestFile::new(String::from("template/out.config")),
    );
    assert_eq!(
        q,
        "files don't match: /tmp/.tmp1HfpM6 template/out.config (o)verwrite / (m)erge[vimdiff] / (c)ontinue / (d)iff / merge to (t)emplate"
    );
}

#[test]
fn merge_outcomes() {
    assert_eq!(merge_outcome("vim", Ok(Some(0))), Ok(0));
    assert_eq!(merge_outcome("vim", Ok(None)), Err(DrtError::CmdExitedPrematurely));
    assert_eq!(
        merge_outcome("vim", Err(SpawnFailure::NotFound)),
        Err(DrtError::CommandNotFound(String::from("vim")))
    );
    assert_eq!(
        merge_outcome("vim", Err(SpawnFailure::Other(String::from("boom")))),
        Err(DrtError::IoError(String::from("boom")))
    );
}

#[test]
fn diff_plans() {
    match diff_plan("test.txt", false, true) {
        DiffPlan::Done(Err(m)) => assert_eq!(m, "file not found: test.txt"),
        _ => panic!("expected an error"),
    }
    match diff_plan("test.txt", true, false) {
        DiffPlan::Done(Ok(r)) => {
            assert_eq!(r.state, DiffState::Create);
            assert!(r.diffstr.is_none());
        }
        _ => panic!("expected Create"),
    }
    assert!(matches!(diff_plan("test.txt", true, true), DiffPlan::RunDiff));
}

#[test]
fn outputs_as_text() {
    let r = output_to_diffresult("1c1\n< é\n".as_bytes().to_vec());
    assert_eq!(r.state, DiffState::Patch);
    assert_eq!(r.diffstr, Some(String::from("1c1\n< é\n")));
    let e = output_to_execresult(b"out".to_vec(), b"err".to_vec(), Some(3));
    assert_eq!((e.stdout.as_str(), e.stderr.as_str(), e.exit_code), ("out", "err", Some(3)));
}

#[test]
fn paths_in_reports() {
    assert_eq!(path_text(Some(String::from("a.txt"))), PathText::Text(String::from("a.txt")));
    assert_eq!(path_text(None), PathText::ConversionError);
}

#[test]
fn trim_removes_white_space_at_both_ends() {
    assert_eq!(trim("  a b \t\n"), "a b");
    assert_eq!(trim("\u{3000}x\u{85}"), "x");
    assert_eq!(trim(" \n "), "");
    assert_eq!(trim(""), "");
}

#[test]
fn answers_typed_by_the_user() {
    assert_eq!(answer_of("  yes\n"), Some('y'));
    assert_eq!(answer_of("n"), Some('n'));
    assert_eq!(answer_of(""), None);
    assert_eq!(answer_of(" \n"), None);
}

#[test]
fn drtrun_words() {
    assert_eq!(drain_to(String::from("t:my.config"), ':'), "t:");
    assert_eq!(drain_to(String::from("a:b:c"), ':'), "a:");
    assert_eq!(parse_type(String::from("v:name=sean")), (Type::Variable, String::from("name=sean")));
    assert_eq!(parse_type(String::from("of:f:mkdir")), (Type::OutputFile, String::from("f:mkdir")));
    assert_eq!(parse_type(String::from("if:x")), (Type::InputFile, String::from("x")));
    assert_eq!(parse_type(String::from("t:x")), (Type::Template, String::from("x")));
    assert_eq!(parse_type(String::from("i:n=1")), (Type::Unknown, String::from("n=1")));
    assert_eq!(split_assignment("n=1=2"), (String::from("n"), String::from("1=2")));
}

#[test]
fn messages() {
    assert_eq!(
        DrtError::InsufficientPrivileges(String::from("/root")).message(),
        "Insufficient Privileges: /root"
    );
    assert_eq!(DrtError::VarNotFound(String::from("k")).message(), "Variable not found: k");
    assert_eq!(DrtError::Error.message(), "Error");
    assert_eq!(Verb::SKIPPED.label(), "SKIPPED");
    assert_eq!(log_path_action("create dir", Verb::SKIPPED, "/tmp"), "SKIPPED: create dir /tmp");
}
