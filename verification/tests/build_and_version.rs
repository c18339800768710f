use envio::codegen::{
    extract_metadata_type, metadata_type_for, parse_path_into_version, parse_u64, parse_version, parse_version_file,
    version_order, PassphraseCodegen, VersionInfo,
};
use envio::profile::Timestamp;
use envio::version::{
    cache_is_stale, cached_version, has_release_tag, is_newer, latest_remote_tag, latest_version_from, mentions_tag_name,
    read_version, release_tag, release_version, remote_version, str_le, strip_prefixes_str, update_available,
    version_of_tag,
    CachedVersion, SemVer,
};

fn text(v: &SemVer) -> String {
    v.version_text()
}

fn info(n: &str) -> VersionInfo {
    VersionInfo {
        module_name: format!("v{}", n),
        version_ident: format!("V{}", n.to_uppercase()),
        metadata_struct_type: format!("MetadataV{}", n.to_uppercase()),
        version_string: n.replace('_', "."),
    }
}

#[test]
fn version_file_names_give_their_number() {
    assert_eq!(parse_path_into_version("v1.rs").unwrap(), "1");
    assert_eq!(parse_path_into_version("v2_1.rs").unwrap(), "2_1");
    assert_eq!(parse_path_into_version("mod.rs").unwrap_err(), "not a version file");
    assert_eq!(parse_path_into_version("v1.txt").unwrap_err(), "not a version file");
    assert_eq!(parse_path_into_version("x1.rs").unwrap_err(), "not a version file");
}

#[test]
fn the_metadata_type_is_found_in_the_module() {
    let src = "use super::*;\nmetadata_struct!( V1 , salt: String);\n";
    assert_eq!(extract_metadata_type(src, "V1").unwrap(), "MetadataV1");
    assert_eq!(extract_metadata_type("nothing", "V1").unwrap_err(), "Could not find metadata_struct! for V1");
    assert_eq!(metadata_type_for("V3", Ok(true)).unwrap(), "MetadataV3");
    assert_eq!(metadata_type_for("V3", Err("bad".to_string())).unwrap_err(), "bad");
}

#[test]
fn a_version_module_is_named_from_its_number() {
    let v = parse_version_file("2_a", "metadata_struct!(V2_A, x: u8);").unwrap();
    assert_eq!(v.module_name, "v2_a");
    assert_eq!(v.version_ident, "V2_A");
    assert_eq!(v.version_string, "2.a");
    assert_eq!(v.metadata_struct_type, "MetadataV2_A");
    assert_eq!(parse_version_file("3", "").unwrap_err(), "Could not find metadata_struct! for V3");
}

#[test]
fn the_code_names_every_version() {
    let g = PassphraseCodegen::new(vec![info("1"), info("2")]);
    assert_eq!(g.get_versions().len(), 2);
    let meta = g.generate_metadata_code();
    assert!(meta.starts_with("use super::v1::MetadataV1;\nuse super::v2::MetadataV2;\n\n"));
    assert!(meta.contains("    #[serde(rename = \"1\")] V1(MetadataV1),\n    #[serde(rename = \"2\")] V2(MetadataV2),\n}"));
    assert!(meta.contains("VersionedMetadata::V1(Default::default())"));
    assert!(meta.ends_with("VersionedMetadata::V2(meta)\n    }\n}\n"));
    let m = g.generate_decrypt_match_macro();
    assert!(m.contains("            VersionedMetadata::V2(metadata) => crate::cipher::passphrase::v2::decrypt(&$self.key, metadata, $encrypted_data),"));
    assert!(m.ends_with("\n        }\n    };\n}"));
    let e = g.generate_encrypt_function();
    assert!(e.contains("    use v2::encrypt;\n"));
    assert_eq!(PassphraseCodegen::new(vec![]).generate_encrypt_function(), "");
}

#[test]
fn tags_compare_as_text() {
    assert!(str_le("v1.2.0", "v1.10.0") == ("v1.2.0" <= "v1.10.0"));
    assert!(str_le("abc", "abc"));
    assert!(str_le("ab", "abc"));
    assert!(!str_le("b", "abc"));
    assert_eq!(strip_prefixes_str("vvv1.0", "v"), "1.0");
    assert_eq!(strip_prefixes_str("1.0", "v"), "1.0");
}

const LS_REMOTE: &str = "abc123\tHEAD
def456\trefs/heads/main
111111\trefs/tags/v0.5.0
222222\trefs/tags/v0.6.1
333333\trefs/tags/v0.6.0
bad line without tab
444444\trefs/tags/v0.6.1^{}
";

#[test]
fn the_greatest_tag_is_found() {
    assert_eq!(latest_remote_tag(LS_REMOTE), Some("v0.6.1^{}".to_string()));
    assert_eq!(latest_remote_tag("abc\trefs/heads/main\n"), None);
    assert_eq!(latest_remote_tag("a\tb\trefs/tags/x\n"), None);
    assert!(remote_version(LS_REMOTE).is_none());
    let v = remote_version("1\trefs/tags/v1.2.3\n2\trefs/tags/v1.10.0\n").unwrap();
    assert_eq!(text(&v), "1.2.3");
    let w = remote_version("1\trefs/tags/v0.9.0\n2\trefs/tags/v0.10.0\n").unwrap();
    assert_eq!((w.major(), w.minor(), w.patch()), (0, 9, 0));
    assert!(remote_version("1\trefs/tags/v1.0.0\n2\trefs/tags/x-nightly\n").is_none());
    assert!(remote_version("1\trefs/tags/not-a-version\n").is_none());
}

const RELEASE: &str = r#"{"url":"x","tag_name":"v0.7.2","name":"Release"}"#;

#[test]
fn the_release_tag_is_read_from_the_answer() {
    assert!(has_release_tag(RELEASE));
    assert_eq!(release_tag(RELEASE), "0.7.2");
    assert_eq!(text(&release_version(RELEASE).unwrap()), "0.7.2");
    assert!(!has_release_tag(r#"{"message":"Not Found"}"#));
    assert!(release_version(r#"{"message":"Not Found"}"#).is_none());
    assert!(!has_release_tag("tag_name"));
    assert!(mentions_tag_name("tag_name"));
    assert!(!mentions_tag_name(r#"{"message":"Not Found"}"#));
    assert!(release_version(r#"{"tag_name":"vlatest","x":1}"#).is_none());
}

#[test]
fn tags_name_versions_without_their_v() {
    assert_eq!(text(&version_of_tag("v1.2.3").unwrap()), "1.2.3");
    assert_eq!(text(&version_of_tag("1.2.3-rc.1+b7").unwrap()), "1.2.3-rc.1+b7");
    assert_eq!(text(&version_of_tag("18446744073709551615.0.0+x").unwrap()), "18446744073709551615.0.0+x");
    let rc = version_of_tag("1.2.3-rc.1+b7").unwrap();
    assert_eq!((rc.major(), rc.minor(), rc.patch(), rc.pre(), rc.build()), (1, 2, 3, "rc.1", "b7"));
    assert!(version_of_tag("v1.2").is_none());
}

fn at(secs: i64, nanos: u32) -> Timestamp {
    Timestamp { secs, nanos, offset: 0 }
}

#[test]
fn a_cached_version_is_stale_after_seven_days() {
    let now = at(1_000_000_000, 500);
    assert!(cache_is_stale(&at(1_000_000_000 - 604_800, 500), &now));
    assert!(cache_is_stale(&at(1_000_000_000 - 604_801, 999), &now));
    assert!(!cache_is_stale(&at(1_000_000_000 - 604_800, 501), &now));
    assert!(!cache_is_stale(&at(1_000_000_000, 0), &now));
    assert!(!cache_is_stale(&at(i64::MIN, 0), &at(i64::MIN + 5, 0)));
}

#[test]
fn the_latest_version_falls_back_in_turn() {
    let v = |s: &str| read_version(s).unwrap();
    assert_eq!(text(&latest_version_from(Some(v("1.0.0")), Some(v("2.0.0")), "3.0.0")), "1.0.0");
    assert_eq!(text(&latest_version_from(None, Some(v("2.0.0")), "3.0.0")), "2.0.0");
    assert_eq!(text(&latest_version_from(None, None, "3.0.0")), "3.0.0");
    assert_eq!(text(&latest_version_from(None, None, "junk")), "0.0.0");
}

#[test]
fn the_cached_version_is_used_while_fresh() {
    let now = at(1_000_000_000, 0);
    assert!(matches!(cached_version("1.2.3", &at(0, 0), &now), CachedVersion::Stale));
    match cached_version("1.2.3", &at(999_999_000, 0), &now) {
        CachedVersion::Fresh(v) => assert_eq!(text(&v), "1.2.3"),
        _ => panic!("expected the cached version"),
    }
    assert!(matches!(cached_version("junk", &at(999_999_000, 0), &now), CachedVersion::Unreadable));
}

#[test]
fn newer_versions_are_noticed() {
    let v = |s: &str| read_version(s).unwrap();
    assert!(is_newer(&v("0.10.0"), &v("0.9.0")));
    assert!(!is_newer(&v("1.0.0-rc.1"), &v("1.0.0")));
    assert!(!is_newer(&v("1.0.0"), &v("1.0.0")));
    assert_eq!(update_available(&v("1.1.0"), "1.0.0"), Some(true));
    assert_eq!(update_available(&v("1.0.0"), "1.1.0"), Some(false));
    assert_eq!(update_available(&v("1.0.0"), "one"), None);
    assert!(read_version("1.2").is_none());
}

#[test]
fn version_strings_are_ordered_as_versions() {
    assert_eq!(parse_u64("42"), Some(42));
    assert_eq!(parse_u64("+7"), Some(7));
    assert_eq!(parse_u64("18446744073709551615"), Some(u64::MAX));
    assert_eq!(parse_u64("18446744073709551616"), None);
    assert_eq!(parse_u64("-1"), None);
    assert_eq!(parse_u64(""), None);
    assert_eq!(parse_u64("+"), None);
    assert_eq!(parse_u64("1a"), None);
    assert_eq!(text(&parse_version("1.2.3")), "1.2.3");
    assert_eq!(text(&parse_version("2")), "2.0.0");
    assert_eq!(text(&parse_version("x")), "0.0.0");
    let order = version_order(vec![info("10"), info("2"), info("1_5_0"), info("x"), info("2_0_0")]);
    let names: Vec<String> = order.iter().map(|v| v.version_string.clone()).collect();
    assert_eq!(names, vec!["x", "1.5.0", "2", "2.0.0", "10"]);
}
