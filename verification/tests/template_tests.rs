use drt::error::DrtError;
use drt::template::{match_line, render_template, replace_line, ChangeString};
use drt::text::split_lines;
use drt::vars::Vars;

#[test]
fn test_regex() {
    match match_line(String::from("a@@foo@@").as_str()) {
        Some((ref key, _)) if key == "foo" => {}
        Some((_, _)) => panic!("fail"),
        None => panic!("expected Template"),
    }
    match match_line(String::from("@@foo@@a").as_str()) {
        Some((ref key, _)) if key == "foo" => {}
        Some((_, _)) => panic!("fail"),
        None => panic!("expected Template"),
    }
    match match_line(String::from("@@foo@@").as_str()) {
        Some((ref key, _)) if key == "foo" => {}
        Some((_, _)) => panic!("fail"),
        None => panic!("expected Template"),
    }
}

#[test]
fn match_line_gives_byte_range() {
    let (key, range) = match_line("a@@foo@@b").unwrap();
    assert_eq!(key, "foo");
    assert_eq!(range.start, 1);
    assert_eq!(range.end, 8);
    // offsets count bytes, so the range slices the line
    let line = "é@@x@@";
    let (key, range) = match_line(line).unwrap();
    assert_eq!(key, "x");
    assert_eq!((range.start, range.end), (2, 7));
    assert_eq!(&line[range], "@@x@@");
}

#[test]
fn match_line_takes_the_first_placeholder() {
    let (key, range) = match_line("@@a@@ and @@b@@").unwrap();
    assert_eq!(key, "a");
    assert_eq!((range.start, range.end), (0, 5));
    // `@@x y@@` is no placeholder: a space is not allowed in a name
    let (key, _) = match_line("@@x y@@ @@z@@").unwrap();
    assert_eq!(key, "z");
}

#[test]
fn match_line_without_placeholder() {
    assert!(match_line("key=value").is_none());
    assert!(match_line("a@b@@c").is_none());
    assert!(match_line("").is_none());
}

#[test]
fn match_line_accepts_an_empty_name() {
    let (key, range) = match_line("x@@@@").unwrap();
    assert_eq!(key, "");
    assert_eq!((range.start, range.end), (1, 5));
}

fn vars_with(pairs: &[(&str, &str)]) -> Vars {
    let mut vars = Vars::new();
    for (k, v) in pairs {
        vars.insert(k, v);
    }
    vars
}

#[test]
fn replace_line_fills_in_a_bound_variable() {
    let vars = vars_with(&[("value", "first_value")]);
    match replace_line(&vars, String::from("key=@@value@@")).unwrap() {
        ChangeString::Changed(line) => assert_eq!(line, "key=first_value\n"),
        ChangeString::Unchanged => panic!("expected a change"),
    }
}

#[test]
fn replace_line_keeps_the_text_around_the_placeholder() {
    let vars = vars_with(&[("a.b-c_1", "X")]);
    match replace_line(&vars, String::from("pre @@a.b-c_1@@ post @@other@@")).unwrap() {
        ChangeString::Changed(line) => assert_eq!(line, "pre X post @@other@@\n"),
        ChangeString::Unchanged => panic!("expected a change"),
    }
}

#[test]
fn replace_line_leaves_a_plain_line() {
    let vars = vars_with(&[("value", "v")]);
    assert!(matches!(replace_line(&vars, String::from("plain")), Ok(ChangeString::Unchanged)));
}

#[test]
fn replace_line_reports_an_unbound_variable() {
    let vars = vars_with(&[("value", "v")]);
    match replace_line(&vars, String::from("x=@@missing@@")) {
        Err(DrtError::VarNotFound(k)) => assert_eq!(k, "missing"),
        _ => panic!("expected VarNotFound"),
    }
}

#[test]
fn render_template_expands_every_line() {
    let vars = vars_with(&[("value", "first_value")]);
    let out = render_template(&vars, "key=@@value@@\n").unwrap();
    assert_eq!(out, "key=first_value\n\n");
    let out = render_template(&vars, "a\r\n@@value@@ b\nc").unwrap();
    assert_eq!(out, "a\nfirst_value b\n\nc\n");
}

#[test]
fn render_template_without_placeholders_copies_lines() {
    let vars = Vars::new();
    assert_eq!(render_template(&vars, "one\ntwo\n").unwrap(), "one\ntwo\n");
    assert_eq!(render_template(&vars, "").unwrap(), "");
}

#[test]
fn render_template_stops_at_the_first_unbound_variable() {
    let vars = vars_with(&[("a", "1")]);
    match render_template(&vars, "@@a@@\n@@b@@\n@@c@@\n") {
        Err(DrtError::VarNotFound(k)) => assert_eq!(k, "b"),
        _ => panic!("expected VarNotFound"),
    }
}

#[test]
fn split_lines_like_a_buffered_reader() {
    assert_eq!(split_lines("a\r\nb\n"), vec!["a", "b"]);
    assert_eq!(split_lines("a\n\nb"), vec!["a", "", "b"]);
    assert_eq!(split_lines("x\r"), vec!["x\r"]);
    assert!(split_lines("").is_empty());
}
