use envio::cipher::{CipherKind, EncryptedContent};
use envio::crypto::{age_identity_bytes, gpg_identity_bytes, plain_identity_bytes, AGE, NoEncryption};
use envio::date::Date;
use envio::env::EnvMap;
use envio::error::Error;
use envio::profile::{create_cipher, profile_cipher, CipherMetadata, Decrypted, Profile, ProfileCipher, Timestamp};
use envio::text::{
    split_lines, split_words, str_contains, str_ends_with, str_eq_ignore_ascii_case, str_replace_char,
    str_starts_with, trim_str,
};

#[test]
fn a_cipher_is_made_for_each_kind() {
    assert_eq!(create_cipher(CipherKind::NONE, None).unwrap().kind(), CipherKind::NONE);
    assert_eq!(create_cipher(CipherKind::AGE, Some("k".to_string())).unwrap().kind(), CipherKind::AGE);
    match create_cipher(CipherKind::GPG, Some("FP".to_string())).unwrap().export_metadata() {
        Some(CipherMetadata::Gpg { key_fingerprint }) => assert_eq!(key_fingerprint, "FP"),
        _ => panic!("expected the fingerprint"),
    }
    assert!(create_cipher(CipherKind::NONE, None).unwrap().export_metadata().is_none());
}

#[test]
fn a_passphrase_profile_needs_a_key_provider() {
    let none: Option<fn() -> String> = None;
    match profile_cipher(CipherKind::PASSPHRASE, none) {
        Err(Error::Msg(m)) => assert_eq!(m, "Key provider is required for passphrase-encrypted profiles"),
        _ => panic!("expected a message"),
    }
    let c = profile_cipher(CipherKind::PASSPHRASE, Some(|| "typed key".to_string())).unwrap();
    match c {
        ProfileCipher::Passphrase(p) => assert_eq!(p.get_key(), "typed key"),
        _ => panic!("expected a passphrase cipher"),
    }
    let none: Option<fn() -> String> = None;
    assert_eq!(profile_cipher(CipherKind::NONE, none).unwrap().kind(), CipherKind::NONE);
}

#[test]
fn the_plain_profile_cipher_stores_the_json() {
    let mut c = create_cipher(CipherKind::NONE, None).unwrap();
    match c.encrypt(b"ignored", "{\"A\":\"1\"}".to_string()) {
        Some(Ok(EncryptedContent::Json(t))) => assert_eq!(t, "{\"A\":\"1\"}"),
        _ => panic!("expected JSON"),
    }
    match c.decrypt(&EncryptedContent::Json("{}".to_string())) {
        Some(Ok(Decrypted::Json(t))) => assert_eq!(t, "{}"),
        _ => panic!("expected JSON"),
    }
    let mut g = create_cipher(CipherKind::GPG, Some("FP".to_string())).unwrap();
    assert!(g.encrypt(b"x", "{}".to_string()).is_none());
    assert!(g.decrypt(&EncryptedContent::Bytes(vec![])).is_none());
}

#[test]
fn a_passphrase_profile_reads_back_what_it_saved() {
    let cipher = create_cipher(CipherKind::PASSPHRASE, Some("a long passphrase".to_string())).unwrap();
    let mut p = Profile::new("work".to_string(), None, "/p/work.env".to_string(), EnvMap::new(), cipher);
    assert_eq!(p.metadata.version, "0.1.0");
    assert_eq!(p.metadata.cipher_kind, CipherKind::PASSPHRASE);
    let stored = p.encrypt_for_save(b"[1,2,3]", "[1,2,3]".to_string()).unwrap().unwrap();
    match &p.metadata.cipher_metadata {
        Some(CipherMetadata::Passphrase(m)) => assert_eq!(m.salt.len(), 22),
        _ => panic!("expected the salt and nonce"),
    }
    match p.cipher.decrypt(&stored) {
        Some(Ok(Decrypted::Bytes(b))) => assert_eq!(b, b"[1,2,3]".to_vec()),
        _ => panic!("expected the bytes"),
    }
}

#[test]
fn a_new_profile_is_stamped_now() {
    let p = Profile::new(
        "n".to_string(),
        Some("d".to_string()),
        "/p/n.env".to_string(),
        EnvMap::new(),
        create_cipher(CipherKind::NONE, None).unwrap(),
    );
    assert!(p.metadata.created_at.secs > 1_600_000_000);
    assert!(!p.metadata.created_at.is_later_than(&p.metadata.updated_at));
    assert_eq!(p.metadata.description.as_deref(), Some("d"));
}

#[test]
fn timestamps_compare_by_seconds_then_nanoseconds() {
    let a = Timestamp { secs: 5, nanos: 1, offset: 0 };
    let b = Timestamp { secs: 5, nanos: 0, offset: 3600 };
    let c = Timestamp { secs: 4, nanos: 999, offset: 0 };
    assert!(a.is_later_than(&b));
    assert!(!b.is_later_than(&a));
    assert!(b.is_later_than(&c));
    assert!(!a.is_later_than(&a));
}

#[test]
fn the_plain_legacy_cipher_marks_and_unmarks() {
    let c = NoEncryption::new("".to_string());
    let sealed = c.encrypt(b"A=1").unwrap();
    let mut want = b"A=1".to_vec();
    want.extend(plain_identity_bytes());
    assert_eq!(sealed, want);
    assert!(NoEncryption::is_this_type(&sealed));
    assert_eq!(c.decrypt(&sealed).unwrap(), b"A=1".to_vec());
    assert_eq!(c.decrypt(b"raw").unwrap(), b"raw".to_vec());
    assert!(!NoEncryption::is_this_type(b"raw"));
    assert_eq!(plain_identity_bytes(), b"-----PLAIN TEXT FILE-----".to_vec());
    assert_eq!(gpg_identity_bytes(), b"-----GPG ENCRYPTED FILE-----".to_vec());
}

#[test]
fn dates_are_checked_and_ordered() {
    assert!(Date::from_ymd(2024, 2, 29).is_some());
    assert!(Date::from_ymd(2023, 2, 29).is_none());
    assert!(Date::from_ymd(1900, 2, 29).is_none());
    assert!(Date::from_ymd(2000, 2, 29).is_some());
    assert!(Date::from_ymd(2024, 4, 31).is_none());
    assert!(Date::from_ymd(2024, 0, 1).is_none());
    let a = Date::from_ymd(2024, 1, 31).unwrap();
    let b = Date::from_ymd(2024, 2, 1).unwrap();
    assert!(a.on_or_before(&b));
    assert!(a.on_or_before(&a));
    assert!(!b.on_or_before(&a));
}

#[test]
fn text_helpers_follow_str() {
    assert_eq!(split_lines("a\r\nb\n\nc"), vec!["a", "b", "", "c"]);
    assert_eq!(split_lines("a\n"), vec!["a"]);
    assert_eq!(split_lines(""), Vec::<&str>::new());
    assert_eq!(split_words("  a  b\tc \n"), vec!["a".to_string(), "b".to_string(), "c".to_string()]);
    assert_eq!(split_words(" \u{3000} "), Vec::<String>::new());
    assert_eq!(trim_str("\u{a0} x y \t"), "x y");
    assert!(str_starts_with("abc", "ab"));
    assert!(str_ends_with("abc", "bc"));
    assert!(str_contains("abc", "b"));
    assert!(!str_contains("abc", "d"));
    assert!(str_eq_ignore_ascii_case("HeLLo", "hello"));
    assert_eq!(str_replace_char("1_2_3", '_', '.'), "1.2.3");
}

#[test]
fn legacy_age_files_end_with_their_marker() {
    assert_eq!(age_identity_bytes(), b"-----AGE ENCRYPTED FILE-----".to_vec());
    let mut marked = b"payload".to_vec();
    marked.extend(age_identity_bytes());
    assert!(AGE::is_this_type(&marked));
    assert!(!AGE::is_this_type(b"payload"));
    let mut c = AGE::new("a".to_string());
    c.set_key("secret".to_string());
    assert_eq!(c.get_key(), "secret");
    assert_eq!(c.as_string(), "age");
    assert!(matches!(c.decrypt(b"not age"), Err(Error::Cipher(_))));
}

#[test]
fn a_cipher_takes_the_settings_kept_beside_its_profile() {
    let mut c = create_cipher(CipherKind::PASSPHRASE, Some("k".to_string())).unwrap();
    let kept = Some(CipherMetadata::Passphrase(envio::cipher::passphrase::PassphraseMetadata {
        salt: "c2FsdA".to_string(),
        nonce: "bm9uY2U".to_string(),
    }));
    c.import_metadata(&kept);
    match c.export_metadata() {
        Some(CipherMetadata::Passphrase(m)) => {
            assert_eq!(m.salt, "c2FsdA");
            assert_eq!(m.nonce, "bm9uY2U");
        }
        _ => panic!("expected passphrase settings"),
    }
    let mut g = create_cipher(CipherKind::GPG, Some("old".to_string())).unwrap();
    g.import_metadata(&Some(CipherMetadata::Gpg { key_fingerprint: "NEW".to_string() }));
    match g.export_metadata() {
        Some(CipherMetadata::Gpg { key_fingerprint }) => assert_eq!(key_fingerprint, "NEW"),
        _ => panic!("expected a fingerprint"),
    }
    let mut n = create_cipher(CipherKind::NONE, None).unwrap();
    n.import_metadata(&Some(CipherMetadata::Gpg { key_fingerprint: "X".to_string() }));
    assert!(n.export_metadata().is_none());
}

#[test]
fn the_age_cipher_of_a_profile_reads_back_what_it_wrote() {
    let mut c = create_cipher(CipherKind::AGE, Some("pw".to_string())).unwrap();
    let sealed = c.encrypt(b"K=V", "{}".to_string()).unwrap().unwrap();
    match c.decrypt(&sealed) {
        Some(Ok(Decrypted::Bytes(b))) => assert_eq!(b, b"K=V".to_vec()),
        _ => panic!("expected the bytes back"),
    }
    match c.decrypt(&EncryptedContent::Bytes(b"not age".to_vec())) {
        Some(Err(Error::Cipher(_))) => {}
        _ => panic!("expected a cipher error"),
    }
}

#[test]
fn numbers_are_written_in_decimal() {
    assert_eq!(envio::text::u64_decimal_string(0), "0");
    assert_eq!(envio::text::u64_decimal_string(907), "907");
    assert_eq!(envio::text::u64_decimal_string(u64::MAX), u64::MAX.to_string());
    assert_eq!(envio::text::decimal_string(42), "42");
    assert_eq!(envio::text::signed_decimal_string(-15), "-15");
    assert_eq!(envio::text::signed_decimal_string(i32::MIN), i32::MIN.to_string());
    assert_eq!(envio::text::signed_decimal_string(0), "0");
}

#[test]
fn decrypted_age_bytes_must_be_text() {
    assert_eq!(envio::crypto::age_text(b"A=1".to_vec()).unwrap(), "A=1");
    assert!(matches!(envio::crypto::age_text(vec![0xff, 0xfe]), Err(Error::Utf8Error)));
}
