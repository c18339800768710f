use envio::date::Date;
use envio::dotenv::parse_envs_from_string;
use envio::env::{Env, EnvMap};
use envio::error::Error;
use envio::store::{
    envio_root, EnvioRoot,
    build_profile_path, contains_path_separator, env_table, expired_envs, export_text, get_profile_dir,
    join_path_str, profile_dir_for, profile_line, profile_name_from_file, profile_path_for,
    shell_config_for, shellscript_text,
};

#[test]
fn path_separators_are_found() {
    assert!(contains_path_separator("a/b"));
    assert!(contains_path_separator("a\\b"));
    assert!(!contains_path_separator("plain-name"));
}

#[test]
fn paths_join_with_one_slash() {
    assert_eq!(join_path_str("/home/u", "x"), "/home/u/x");
    assert_eq!(join_path_str("/home/u/", "x"), "/home/u/x");
    assert_eq!(join_path_str("", "x"), "x");
    assert_eq!(join_path_str("/home/u", "/etc/x"), "/etc/x");
}

#[test]
fn profiles_live_under_the_home_directory() {
    assert_eq!(profile_dir_for("/home/u"), "/home/u/.envio/profiles");
    assert_eq!(profile_path_for("/home/u/.envio/profiles", "work"), "/home/u/.envio/profiles/work.env");
    if let Some(d) = get_profile_dir() {
        assert!(d.ends_with("/.envio/profiles"));
        let p = build_profile_path("work").unwrap();
        assert_eq!(p, format!("{}/work.env", d));
    }
}

#[test]
fn only_env_files_are_profiles() {
    assert_eq!(profile_name_from_file("work.env"), Some("work".to_string()));
    assert_eq!(profile_name_from_file("a.b.env"), Some("a.b".to_string()));
    assert_eq!(profile_name_from_file("work.txt"), None);
    assert_eq!(profile_name_from_file("work"), None);
    assert_eq!(profile_name_from_file(".env"), None);
    assert_eq!(profile_name_from_file(".hidden.env"), None);
    assert_eq!(profile_name_from_file("work.env.bak"), None);
}

#[test]
fn the_shell_config_depends_on_the_shell() {
    assert_eq!(shell_config_for("/bin/bash"), ".bashrc");
    assert_eq!(shell_config_for("/usr/bin/zsh"), ".zshrc");
    assert_eq!(shell_config_for("/usr/local/bin/fish"), ".config/fish/config.fish");
    assert_eq!(shell_config_for("/bin/sh"), "");
    assert_eq!(shell_config_for("/opt/bash-5/bin/sh"), "");
}

#[test]
fn the_shell_script_names_the_profile() {
    let s = shellscript_text("work");
    assert!(s.starts_with("#!/bin/bash\n"));
    assert!(s.contains("raw_output=$(envio profile show work --no-pretty-print)\n"));
    assert!(s.contains("Failed to load environment variables from profile 'work'"));
    assert!(s.ends_with("done <<< \"$ENV_VARS\"\n"));
}

fn three() -> EnvMap {
    EnvMap::from_pairs(vec![
        ("A".to_string(), "1".to_string()),
        ("B".to_string(), "2".to_string()),
        ("C".to_string(), "3".to_string()),
    ])
}

#[test]
fn export_writes_key_value_lines() {
    assert_eq!(export_text("p", &three(), &None).unwrap(), "A=1\nB=2\nC=3\n");
    let sel = Some(vec!["C".to_string(), "A".to_string()]);
    assert_eq!(export_text("p", &three(), &sel).unwrap(), "A=1\nC=3\n");
    assert_eq!(export_text("p", &three(), &Some(vec![])).unwrap(), "A=1\nB=2\nC=3\n");
}

#[test]
fn export_of_an_empty_profile_fails() {
    match export_text("p", &EnvMap::new(), &None) {
        Err(Error::EmptyProfile(n)) => assert_eq!(n, "p"),
        _ => panic!("expected EmptyProfile"),
    }
}

#[test]
fn export_of_no_selected_variable_fails() {
    match export_text("p", &three(), &Some(vec!["Z".to_string()])) {
        Err(Error::Msg(m)) => assert_eq!(m, "No envs to export"),
        _ => panic!("expected a message"),
    }
}

#[test]
fn exported_text_reads_back_as_the_variables() {
    let m = EnvMap::from_envs(vec![
        Env::new("A".to_string(), "x=y".to_string(), Some("c".to_string()), None),
        Env::from_key_value("B".to_string(), "".to_string()),
    ]);
    let text = export_text("p", &m, &None).unwrap();
    let back = parse_envs_from_string(&text).unwrap();
    assert_eq!(back.to_pairs(), m.to_pairs());
    assert_eq!(back.values()[0].comment, None);
}

#[test]
fn expired_variables_are_those_due_today_or_earlier() {
    let today = Date::from_ymd(2024, 6, 15).unwrap();
    let m = EnvMap::from_envs(vec![
        Env::new("OLD".to_string(), "1".to_string(), None, Date::from_ymd(2024, 6, 14)),
        Env::new("TODAY".to_string(), "2".to_string(), None, Date::from_ymd(2024, 6, 15)),
        Env::new("LATER".to_string(), "3".to_string(), None, Date::from_ymd(2024, 6, 16)),
        Env::from_key_value("NEVER".to_string(), "4".to_string()),
    ]);
    assert_eq!(expired_envs(&m, &today), vec!["OLD".to_string(), "TODAY".to_string()]);
}

#[test]
fn the_variable_table_has_the_asked_columns() {
    let m = EnvMap::from_envs(vec![
        Env::new("A".to_string(), "1".to_string(), Some("c".to_string()), Date::from_ymd(2025, 3, 4)),
        Env::from_key_value("B".to_string(), "2".to_string()),
    ]);
    let (h, rows) = env_table(&m, true, true);
    assert_eq!(h, vec!["Environment Variable", "Value", "Comment", "Expiration Date"]);
    assert_eq!(rows[0], vec!["A", "1", "c", "2025-03-04"]);
    assert_eq!(rows[1], vec!["B", "2", "", ""]);
    let (h, rows) = env_table(&m, false, true);
    assert_eq!(h, vec!["Environment Variable", "Value", "Expiration Date"]);
    assert_eq!(rows[0], vec!["A", "1", "2025-03-04"]);
    let (h, rows) = env_table(&m, false, false);
    assert_eq!(h.len(), 2);
    assert_eq!(rows[1], vec!["B", "2"]);
}

#[test]
fn a_profile_line_shows_its_description() {
    assert_eq!(profile_line("work", &Some("office".to_string())), "work - office");
    assert_eq!(profile_line("home", &None), "home - ");
}

#[test]
fn the_envio_directory_is_looked_for_in_turn() {
    assert!(matches!(envio_root(true, Some("/x".to_string()), true, true), Ok(EnvioRoot::Local)));
    assert!(matches!(envio_root(false, Some("/x".to_string()), true, true), Ok(EnvioRoot::FromEnv(d)) if d == "/x"));
    match envio_root(false, Some("/x".to_string()), false, true) {
        Err(Error::Msg(m)) => assert_eq!(m, "ENVIO_HOME directory does not exist: /x"),
        _ => panic!("expected a message"),
    }
    assert!(matches!(envio_root(false, Some(String::new()), false, true), Ok(EnvioRoot::Home)));
    assert!(matches!(envio_root(false, None, false, true), Ok(EnvioRoot::Home)));
    match envio_root(false, None, false, false) {
        Err(Error::Msg(m)) => assert!(m.starts_with("No .envio folder found")),
        _ => panic!("expected a message"),
    }
}
