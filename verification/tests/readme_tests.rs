use drt::cli::{do_action, execute_interactive, next_action, Action, ActionStep, ExecStep};
use drt::diff::DiffStatus;
use drt::files::{DestFile, Mode};
use drt::template::render_template;
use drt::update::{report_line, update_from_template, TemplateStep};
use drt::vars::Vars;

fn words(ws: &[&str]) -> Vec<String> {
    ws.iter().map(|w| w.to_string()).collect()
}

/// Reads `v value <value> t template/test.config template/out.config`.
fn template_step(mode: Mode, value: &str) -> (Vars, ActionStep) {
    let tokens = words(&["v", "value", value, "t", "template/test.config", "template/out.config"]);
    let mut vars = Vars::new();
    let (first, pos) = next_action(&tokens, 0, &mut vars).unwrap();
    assert!(matches!(first, Action::Nothing));
    let (second, _) = next_action(&tokens, pos, &mut vars).unwrap();
    let step = do_action(mode, &vars, second).unwrap();
    (vars, step)
}

#[test]
fn default_mode_reports_a_new_file() {
    let (vars, step) = template_step(Mode::Passive, "first_value");
    let dest = match step {
        ActionStep::ProcessTemplate(_, dest) => dest,
        _ => panic!("expected a template"),
    };
    assert_eq!(render_template(&vars, "key=@@value@@\n").unwrap(), "key=first_value\n\n");
    let s = update_from_template(Mode::Passive, DiffStatus::NewFile);
    assert_eq!(s, TemplateStep::ReportCreate);
    assert_eq!(report_line(&s, &dest).unwrap(), "WOULD: create  template/out.config");
}

#[test]
fn active_mode_creates_the_file() {
    let (_, step) = template_step(Mode::Active, "first_value");
    assert!(matches!(step, ActionStep::ProcessTemplate(_, _)));
    let dest = DestFile::new(String::from("template/out.config"));
    let s = update_from_template(Mode::Active, DiffStatus::NewFile);
    assert_eq!(s, TemplateStep::Copy);
    assert_eq!(report_line(&s, &dest).unwrap(), "LIVE: create  template/out.config");
}

#[test]
fn default_mode_reports_a_changed_file() {
    let (vars, _) = template_step(Mode::Passive, "new_value");
    assert_eq!(render_template(&vars, "key=@@value@@").unwrap(), "key=new_value\n\n");
    let dest = DestFile::new(String::from("template/out.config"));
    let s = update_from_template(Mode::Passive, DiffStatus::Changed(b"1c1\n".to_vec()));
    assert_eq!(report_line(&s, &dest).unwrap(), "WOULD: modify template/out.config");
}

#[test]
fn interactive_overwrite_copies() {
    let dest = DestFile::new(String::from("template/out.config"));
    let s = update_from_template(Mode::Interactive, DiffStatus::Changed(vec![]));
    assert_eq!(s, TemplateStep::Ask(vec![]));
    let s = drt::update::update_from_template_interactive('o', vec![]);
    assert_eq!(report_line(&s, &dest).unwrap(), "LIVE: create  template/out.config");
}

#[test]
fn commands_in_each_mode() {
    let tokens = words(&["x", "chmod", "600", "template/out.config"]);
    let vars = Vars::new();
    let mut bound = Vars::new();
    let run = |mode: Mode, bound: &mut Vars| {
        let (a, _) = next_action(&tokens, 0, bound).unwrap();
        do_action(mode, &vars, a).unwrap()
    };
    match run(Mode::Passive, &mut bound) {
        ActionStep::Execute(_, ExecStep::Lookup(p)) => assert_eq!(p, "chmod"),
        _ => panic!("expected a lookup"),
    }
    match run(Mode::Interactive, &mut bound) {
        ActionStep::Execute(cmd, ExecStep::Ask(q)) => {
            assert_eq!(q, "run (y/n): chmod 600 template/out.config");
            assert_eq!(
                execute_interactive(&cmd, 'n'),
                ExecStep::ReportWould(String::from("chmod 600 template/out.config"))
            );
        }
        _ => panic!("expected a question"),
    }
    match run(Mode::Active, &mut bound) {
        ActionStep::Execute(_, ExecStep::Run(p, args)) => {
            assert_eq!(p, "chmod");
            assert_eq!(args, vec!["600", "template/out.config"]);
        }
        _ => panic!("expected a run"),
    }
}
