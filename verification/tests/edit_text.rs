use envio::date::Date;
use envio::editor::{
    edit_file_name, editor_command, editor_step, format_profile_for_editing, parse_edited_profile,
    retry_options, EditorEvent, EditorStep,
};
use envio::env::{Env, EnvMap};
use envio::error::Error;

fn sample() -> EnvMap {
    let d = Date::from_ymd(2027, 1, 1).unwrap();
    EnvMap::from_envs(vec![
        Env::new(
            "DATABASE_URL".to_string(),
            "postgres://db".to_string(),
            Some("Database credentials\nUsed by the production API".to_string()),
            Some(d),
        ),
        Env::from_key_value("PORT".to_string(), "8080".to_string()),
    ])
}

fn fail(r: Result<EnvMap, Error>) -> Error {
    match r {
        Err(e) => e,
        Ok(_) => panic!("expected an error"),
    }
}

fn msg(e: Error) -> String {
    match e {
        Error::Msg(m) => m,
        _ => panic!("expected a message"),
    }
}

#[test]
fn edit_text_starts_with_the_profile_name_and_writes_each_variable() {
    let text = format_profile_for_editing("work", &sample());
    assert!(text.starts_with("# Profile: work\n#\n# Edit the variables below.\n"));
    assert!(text.contains("# ---\n"));
    assert!(text.ends_with(
        "# Database credentials\n# Used by the production API\n# expires: 2027-01-01\nDATABASE_URL=postgres://db\n\nPORT=8080\n\n"
    ));
}

#[test]
fn edit_text_reads_back_as_the_same_variables() {
    let m = sample();
    let text = format_profile_for_editing("work", &m);
    let back = parse_edited_profile(&text).unwrap();
    let a = back.values();
    let b = m.values();
    assert_eq!(a.len(), b.len());
    for i in 0..a.len() {
        assert_eq!(a[i].key, b[i].key);
        assert_eq!(a[i].value, b[i].value);
        assert_eq!(a[i].comment, b[i].comment);
        assert_eq!(a[i].expiration_date, b[i].expiration_date);
    }
}

#[test]
fn edited_text_gathers_comments_and_dates_before_a_variable() {
    let text = "  # first\n# EXPIRES: 2030-12-31  \n  KEY = some value  \n# dangling\n# --- reset\nOTHER=x\n";
    let m = parse_edited_profile(text).unwrap();
    let vs = m.values();
    assert_eq!(vs.len(), 2);
    assert_eq!(vs[0].key, "KEY");
    assert_eq!(vs[0].value, "some value");
    assert_eq!(vs[0].comment.as_deref(), Some("first"));
    assert_eq!(vs[0].expiration_date, Date::from_ymd(2030, 12, 31));
    assert_eq!(vs[1].key, "OTHER");
    assert_eq!(vs[1].comment, None);
    assert_eq!(vs[1].expiration_date, None);
}

#[test]
fn edited_text_with_a_bad_date_is_refused() {
    let e = fail(parse_edited_profile("# expires: 2030-13-01\nA=1\n"));
    assert_eq!(msg(e), "Line 1: Invalid expiration date format '2030-13-01'. Expected YYYY-MM-DD");
}

#[test]
fn edited_text_with_an_empty_key_is_refused() {
    let e = fail(parse_edited_profile("A=1\n\n = 2\n"));
    assert_eq!(msg(e), "Line 3: Key cannot be empty in KEY=VALUE pair");
}

#[test]
fn edited_text_with_a_line_that_is_no_pair_is_refused() {
    let e = fail(parse_edited_profile("A=1\njust words\n"));
    assert_eq!(msg(e), "Line 2: Invalid format. Expected KEY=VALUE or a comment line starting with '#'");
}

#[test]
fn edited_text_without_variables_is_refused() {
    let e = fail(parse_edited_profile("# nothing here\n\n"));
    assert_eq!(msg(e), "No environment variables found in the edited profile.");
}

#[test]
fn a_later_line_with_the_same_key_replaces_the_earlier() {
    let m = parse_edited_profile("A=1\nB=2\nA=3\n").unwrap();
    assert_eq!(m.to_pairs(), vec![("A".to_string(), "3".to_string()), ("B".to_string(), "2".to_string())]);
}

#[test]
fn the_editor_command_is_split_into_words() {
    let (p, args) = editor_command(Some("  code  --wait -n ".to_string())).unwrap();
    assert_eq!(p, "code");
    assert_eq!(args, vec!["--wait".to_string(), "-n".to_string()]);
    let (p, args) = editor_command(Some("vim".to_string())).unwrap();
    assert_eq!(p, "vim");
    assert!(args.is_empty());
}

#[test]
fn an_unset_or_blank_editor_is_refused() {
    assert_eq!(
        msg(editor_command(None).unwrap_err()),
        "EDITOR environment variable is not set. Please set it to your preferred text editor"
    );
    assert_eq!(msg(editor_command(Some(" \t ".to_string())).unwrap_err()), "No text editor found");
}

#[test]
fn the_edit_file_has_a_fresh_name() {
    let a = edit_file_name();
    let b = edit_file_name();
    assert!(a.starts_with("envio-edit-") && a.ends_with(".txt"));
    assert_eq!(a.len(), "envio-edit-".len() + 36 + ".txt".len());
    assert_ne!(a, b);
}

#[test]
fn the_editing_session_steps() {
    assert!(matches!(editor_step(EditorEvent::Exited(true, Some(0))), EditorStep::ReadFile));
    match editor_step(EditorEvent::Exited(false, Some(2))) {
        EditorStep::Fail(e) => assert_eq!(msg(e), "Editor exited with error code: 2"),
        _ => panic!("expected a failure"),
    }
    match editor_step(EditorEvent::Exited(false, None)) {
        EditorStep::Fail(e) => assert_eq!(msg(e), "Editor exited with error code: 1"),
        _ => panic!("expected a failure"),
    }
    match editor_step(EditorEvent::Exited(false, Some(-3))) {
        EditorStep::Fail(e) => assert_eq!(msg(e), "Editor exited with error code: -3"),
        _ => panic!("expected a failure"),
    }
    match editor_step(EditorEvent::Read("A=1\n".to_string())) {
        EditorStep::Done(m) => assert_eq!(m.to_pairs(), vec![("A".to_string(), "1".to_string())]),
        _ => panic!("expected the variables"),
    }
    match editor_step(EditorEvent::Read("oops\n".to_string())) {
        EditorStep::Ask(e) => assert!(msg(e).starts_with("Line 1: Invalid format")),
        _ => panic!("expected a question"),
    }
    match editor_step(EditorEvent::Chose("Abort (discard changes)".to_string())) {
        EditorStep::Fail(e) => assert_eq!(msg(e), "Edit aborted"),
        _ => panic!("expected a failure"),
    }
    assert!(matches!(editor_step(EditorEvent::Chose("Re-edit the file".to_string())), EditorStep::Launch));
    assert_eq!(retry_options(), vec!["Re-edit the file".to_string(), "Abort (discard changes)".to_string()]);
}
