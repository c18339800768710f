use envio::cipher::CipherKind;
use envio::cli::{file_stem, import_profile_name, parse_env_arg, shell_hook, vim_mode_for, EnvArg};
use envio::commands::{
    completion_shell, export_file, export_keys, fingerprint_for_label, fingerprint_from_env,
    gpg_key_labels, import_source, import_source_for, key_prompt, split_command, value_prompt,
    CompletionShell, ExportKeys, ImportSource, KeyPrompt,
};
use envio::error::Error;

#[test]
fn a_pair_argument_splits_at_the_first_equal_sign() {
    match parse_env_arg("URL=a=b") {
        EnvArg::Pair(k, v) => {
            assert_eq!(k, "URL");
            assert_eq!(v, "a=b");
        }
        _ => panic!("expected a pair"),
    }
    match parse_env_arg("EMPTY=") {
        EnvArg::Pair(k, v) => {
            assert_eq!(k, "EMPTY");
            assert_eq!(v, "");
        }
        _ => panic!("expected a pair"),
    }
    match parse_env_arg("ONLY_KEY") {
        EnvArg::Key(k) => assert_eq!(k, "ONLY_KEY"),
        _ => panic!("expected a key"),
    }
}

#[test]
fn file_stems_follow_the_last_component() {
    assert_eq!(file_stem("/tmp/work.env"), Some("work".to_string()));
    assert_eq!(file_stem("archive.tar.gz"), Some("archive.tar".to_string()));
    assert_eq!(file_stem(".bashrc"), Some(".bashrc".to_string()));
    assert_eq!(file_stem("dir/sub/"), Some("sub".to_string()));
    assert_eq!(file_stem("/"), None);
    assert_eq!(file_stem("a/.."), None);
}

#[test]
fn an_imported_profile_is_named_after_its_source() {
    assert_eq!(import_profile_name("/tmp/work.env", None), "work");
    assert_eq!(import_profile_name("https://example.com/p/shared.env", None), "shared");
    assert_eq!(import_profile_name("/tmp/work.env", Some("mine".to_string())), "mine");
    assert_eq!(import_profile_name("/", None), "imported");
}

#[test]
fn the_shell_hook_sources_the_script() {
    assert_eq!(
        shell_hook("/home/u/.bashrc", "/home/u/.envio/setenv.sh"),
        "\n# envio DO NOT MODIFY\nsource /home/u/.envio/setenv.sh\n"
    );
    assert_eq!(
        shell_hook("/home/u/.config/fish/config.fish", "/s.sh"),
        "\n# envio DO NOT MODIFY\nbass source /s.sh\n"
    );
}

#[test]
fn vim_editors_are_recognised() {
    assert!(vim_mode_for("vim"));
    assert!(vim_mode_for("/usr/bin/nvim -u NONE"));
    assert!(vim_mode_for("vi"));
    assert!(!vim_mode_for("nano"));
    assert!(!vim_mode_for("code --wait"));
    assert!(!vim_mode_for("   "));
}

#[test]
fn each_cipher_asks_for_its_key() {
    assert_eq!(key_prompt(CipherKind::GPG), KeyPrompt::GpgKey);
    assert_eq!(key_prompt(CipherKind::PASSPHRASE), KeyPrompt::Password);
    assert_eq!(key_prompt(CipherKind::AGE), KeyPrompt::Password);
    assert_eq!(key_prompt(CipherKind::NONE), KeyPrompt::NoKey);
}

fn keys() -> Vec<(String, String)> {
    vec![
        ("Alice <a@x>".to_string(), "AAAA".to_string()),
        ("Bob <b@x>".to_string(), "BBBB".to_string()),
        ("Alice <a@x>".to_string(), "CCCC".to_string()),
    ]
}

fn msg<T>(r: Result<T, Error>) -> String {
    match r {
        Err(Error::Msg(m)) => m,
        _ => panic!("expected a message"),
    }
}

#[test]
fn gpg_keys_are_chosen_by_label() {
    assert_eq!(
        gpg_key_labels(&keys()).unwrap(),
        vec!["Alice <a@x>".to_string(), "Bob <b@x>".to_string(), "Alice <a@x>".to_string()]
    );
    assert_eq!(msg(gpg_key_labels(&vec![])), "No GPG keys found");
    assert_eq!(fingerprint_for_label(&keys(), "Alice <a@x>"), Some("AAAA".to_string()));
    assert_eq!(fingerprint_for_label(&keys(), "Bob <b@x>"), Some("BBBB".to_string()));
    assert_eq!(fingerprint_for_label(&keys(), "Carol"), None);
}

#[test]
fn the_key_in_the_environment_must_be_a_known_fingerprint() {
    assert_eq!(fingerprint_from_env(&keys(), "CCCC".to_string()).unwrap(), "CCCC");
    assert_eq!(
        msg(fingerprint_from_env(&keys(), "DDDD".to_string())),
        "ENVIO_KEY does not match any available GPG fingerprint"
    );
}

#[test]
fn a_command_splits_into_program_and_arguments() {
    let (p, args) = split_command(&vec!["ls".to_string(), "-l".to_string(), "/tmp".to_string()]).unwrap();
    assert_eq!(p, "ls");
    assert_eq!(args, vec!["-l".to_string(), "/tmp".to_string()]);
    assert_eq!(msg(split_command(&vec![])), "Command cannot be empty");
}

#[test]
fn the_value_question_says_new_for_a_known_key() {
    assert_eq!(value_prompt("PORT", true), "Enter the new value for PORT:");
    assert_eq!(value_prompt("PORT", false), "Enter the value for PORT:");
}

#[test]
fn the_exported_keys_follow_the_arguments() {
    assert!(matches!(export_keys(None), ExportKeys::All));
    assert!(matches!(export_keys(Some(vec!["A".to_string(), "select".to_string()])), ExportKeys::Choose));
    match export_keys(Some(vec!["A".to_string(), "B".to_string()])) {
        ExportKeys::Given(ks) => assert_eq!(ks, vec!["A".to_string(), "B".to_string()]),
        _ => panic!("expected the keys"),
    }
    assert_eq!(export_file(None), ".env");
    assert_eq!(export_file(Some("out.env".to_string())), "out.env");
}

#[test]
fn an_import_comes_from_a_url_or_a_file() {
    assert_eq!(import_source_for(true, false).unwrap(), ImportSource::Url);
    assert_eq!(import_source_for(false, true).unwrap(), ImportSource::File);
    assert_eq!(msg(import_source_for(false, false)), "Source must be a valid file path or URL");
    assert_eq!(import_source("https://example.com/p.env", false).unwrap(), ImportSource::Url);
    assert_eq!(import_source("/tmp/p.env", true).unwrap(), ImportSource::File);
    assert_eq!(msg(import_source("p.env", false)), "Source must be a valid file path or URL");
}

#[test]
fn completions_exist_for_four_shells() {
    assert_eq!(completion_shell("bash").unwrap(), CompletionShell::Bash);
    assert_eq!(completion_shell("zsh").unwrap(), CompletionShell::Zsh);
    assert_eq!(completion_shell("fish").unwrap(), CompletionShell::Fish);
    assert_eq!(completion_shell("powershell").unwrap(), CompletionShell::PowerShell);
    match completion_shell("tcsh") {
        Err(Error::UnsupportedShell(s)) => assert_eq!(s, "tcsh"),
        _ => panic!("expected UnsupportedShell"),
    }
}
