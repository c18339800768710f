use envio::diagnostic::{
    command_line, format_entry, format_section, get_config_info, trim_end_str, BuildInfo, Code,
    DiagnosticEntry, DiagnosticReport, DiagnosticSection, HostInfo, ProfileDirState,
};

fn text(s: &str) -> DiagnosticEntry {
    DiagnosticEntry::Text(s.to_string())
}

#[test]
fn sections_and_entries_are_markdown() {
    assert_eq!(format_section("Shell"), "#### Shell\n\n");
    assert_eq!(format_entry(&text("zsh")), "zsh\n");
    let code = DiagnosticEntry::Code(Code { language: Some("bash".to_string()), code: "envio list".to_string() });
    assert_eq!(format_entry(&code), "```bash\nenvio list\n```\n");
    let plain = DiagnosticEntry::Code(Code { language: None, code: "x".to_string() });
    assert_eq!(format_entry(&plain), "```\nx\n```\n");
    let list = DiagnosticEntry::List(vec![text("a"), text("b  "), DiagnosticEntry::List(vec![text("c")])]);
    assert_eq!(format_entry(&list), "- a\n- b\n- - c\n");
    assert_eq!(trim_end_str("x \n\t"), "x");
}

#[test]
fn the_report_ends_without_white_space() {
    let r = DiagnosticReport {
        sections: vec![
            DiagnosticSection { title: "One".to_string(), entry: text("1") },
            DiagnosticSection { title: "Two".to_string(), entry: DiagnosticEntry::List(vec![text("2")]) },
        ],
    };
    assert_eq!(r.render(), "#### One\n\n1\n\n#### Two\n\n- 2");
}

fn texts(es: &[DiagnosticEntry]) -> Vec<String> {
    es.iter()
        .map(|e| match e {
            DiagnosticEntry::Text(t) => t.clone(),
            _ => panic!("expected text"),
        })
        .collect()
}

#[test]
fn the_configuration_lines_say_what_exists() {
    let info = get_config_info("/c", true, "/c/profiles", ProfileDirState::Count(3), Some(("/c/setenv.sh", false)));
    assert_eq!(
        texts(&info),
        vec![
            "Config directory: /c (exists)".to_string(),
            "Profile directory: /c/profiles (3 profiles)".to_string(),
            "Shell script: /c/setenv.sh (does not exist)".to_string(),
        ]
    );
    let info = get_config_info("/c", false, "/c/profiles", ProfileDirState::Missing, None);
    assert_eq!(texts(&info)[1], "Profile directory: /c/profiles (does not exist)");
    let info = get_config_info("/c", false, "/c/p", ProfileDirState::Unreadable, None);
    assert_eq!(texts(&info), vec!["Config directory: /c (does not exist)".to_string(), "Profile directory: /c/p (cannot read)".to_string()]);
}

#[test]
fn the_command_line_is_escaped_for_the_shell() {
    let args = vec![
        "envio".to_string(),
        "create".to_string(),
        "my profile".to_string(),
        "--key=a/b,c.d+e".to_string(),
        "it's!".to_string(),
        "".to_string(),
    ];
    assert_eq!(command_line(&args), r#"envio create 'my profile' --key=a/b,c.d+e 'it'\''s'\!'' ''"#);
}

#[test]
fn the_report_holds_every_section_in_order() {
    let build = BuildInfo {
        package: "envio".to_string(),
        version: "0.6.0".to_string(),
        git_version: "abc".to_string(),
        build_timestamp: "now".to_string(),
        profile: "release".to_string(),
        target: "x86_64-unknown-linux-gnu".to_string(),
        family: "unix".to_string(),
        os: "linux".to_string(),
        arch: "x86_64".to_string(),
        pointer_width: "64".to_string(),
        endian: "little".to_string(),
        cpu_features: "sse2".to_string(),
        host: "x86_64-unknown-linux-gnu".to_string(),
    };
    let host = HostInfo {
        os_version: None,
        kernel_version: Some("6.1".to_string()),
        shell: Some("/bin/zsh".to_string()),
        gnupg: "gpg 2.4".to_string(),
        gpgme: None,
    };
    let r = DiagnosticReport::generate(&build, &host, vec![text("Config directory: /c (exists)")], &vec!["envio".to_string()]);
    let titles: Vec<&str> = r.sections.iter().map(|s| s.title.as_str()).collect();
    assert_eq!(
        titles,
        vec!["Software version", "Operating system", "Shell", "Configuration", "Command line", "GnuPG", "Compile time information"]
    );
    let out = r.render();
    assert!(out.starts_with("#### Software version\n\n- envio 0.6.0 (abc)\n- Build timestamp: now\n\n#### Operating system\n\n- OS: Unknown\n- Kernel: 6.1\n\n#### Shell\n\n/bin/zsh\n\n"));
    assert!(out.contains("#### Command line\n\n```bash\nenvio\n```\n"));
    assert!(out.ends_with("- Host: x86_64-unknown-linux-gnu"));
}
