use envio::cipher::gpg::{format_fingerprint, parse_gpg_key_list, user_id_label};
use envio::cipher::stream::{open_stream, seal_stream};
use envio::cipher::{CipherKind, EncryptedContent, AGE, GPG, NONE, PASSPHRASE};
use envio::error::Error;

#[test]
fn kinds_read_their_names_without_case() {
    assert_eq!(CipherKind::parse("passphrase").unwrap(), CipherKind::PASSPHRASE);
    assert_eq!(CipherKind::parse("GPG").unwrap(), CipherKind::GPG);
    assert_eq!(CipherKind::parse("Age").unwrap(), CipherKind::AGE);
    assert_eq!(CipherKind::parse("none").unwrap(), CipherKind::NONE);
    match CipherKind::parse("rot13") {
        Err(Error::Msg(m)) => assert_eq!(m, "Matching variant not found"),
        _ => panic!("expected an error"),
    }
}

#[test]
fn each_kind_reads_back_from_its_name() {
    for k in CipherKind::all() {
        assert_eq!(CipherKind::parse(k.as_str()).unwrap(), k);
    }
    assert_eq!(
        CipherKind::all(),
        vec![CipherKind::NONE, CipherKind::PASSPHRASE, CipherKind::AGE, CipherKind::GPG]
    );
    assert_eq!(CipherKind::AGE.label(), Some("BETA"));
    assert_eq!(CipherKind::GPG.label(), None);
}

#[test]
fn the_plain_cipher_keeps_the_json() {
    let mut c = NONE;
    assert_eq!(c.kind(), CipherKind::NONE);
    let stored = c.encrypt("{\"A\":\"1\"}".to_string()).unwrap();
    assert_eq!(c.decrypt(&stored).unwrap(), "{\"A\":\"1\"}");
    match c.decrypt(&EncryptedContent::Bytes(vec![1, 2, 3])) {
        Err(Error::Cipher(m)) => assert_eq!(m, "Encrypted data is not a JSON object"),
        _ => panic!("expected a cipher error"),
    }
}

#[test]
fn stored_content_gives_its_bytes() {
    assert_eq!(EncryptedContent::Json("hé".to_string()).as_bytes().unwrap(), "hé".as_bytes().to_vec());
    assert_eq!(EncryptedContent::Bytes(vec![7, 8]).as_bytes().unwrap(), vec![7, 8]);
}

#[test]
fn a_sealed_stream_opens_to_the_data() {
    let key = [7u8; 32];
    let nonce = [3u8; 19];
    let data: Vec<u8> = (0..3000u32).map(|i| (i % 251) as u8).collect();
    let sealed = seal_stream(&key, &nonce, &data).unwrap();
    assert_eq!(sealed.len(), data.len() + 3 * 16);
    assert_eq!(open_stream(&key, &nonce, &sealed).unwrap(), data);
    let mut bad = sealed.clone();
    bad[5] ^= 1;
    assert!(open_stream(&key, &nonce, &bad).is_none());
    assert!(open_stream(&[8u8; 32], &nonce, &sealed).is_none());
}

#[test]
fn an_empty_stream_is_one_tag() {
    let key = [1u8; 32];
    let nonce = [2u8; 19];
    let sealed = seal_stream(&key, &nonce, &[]).unwrap();
    assert_eq!(sealed.len(), 16);
    assert_eq!(open_stream(&key, &nonce, &sealed).unwrap(), Vec::<u8>::new());
}

#[test]
fn the_passphrase_cipher_decrypts_what_it_encrypted() {
    let mut c = PASSPHRASE::new("correct horse battery".to_string());
    assert_eq!(c.kind(), CipherKind::PASSPHRASE);
    let ct = c.encrypt(b"{\"A\":\"1\"}").unwrap();
    assert_ne!(ct, b"{\"A\":\"1\"}".to_vec());
    let meta = c.export_metadata();
    assert_eq!(meta.salt.len(), 22);
    assert_eq!(meta.nonce.len(), 28);
    assert!(meta.nonce.ends_with('='));
    assert_eq!(c.decrypt_checked(&ct).unwrap(), b"{\"A\":\"1\"}".to_vec());

    let mut other = PASSPHRASE::new("wrong passphrase".to_string());
    other.import_metadata(c.export_metadata());
    match other.decrypt_checked(&ct) {
        Err(Error::Cipher(m)) => assert_eq!(m, "aead::Error"),
        _ => panic!("expected a cipher error"),
    }
    assert_eq!(c.get_key(), "correct horse battery");
}

#[test]
fn a_nonce_of_the_wrong_length_is_refused() {
    let mut c = PASSPHRASE::new("correct horse battery".to_string());
    let mut meta = c.export_metadata();
    meta.salt = "c2FsdHNhbHRzYWx0c2FsdA".to_string();
    meta.nonce = "AQID".to_string();
    c.import_metadata(meta);
    match c.decrypt_checked(&[0u8; 32]) {
        Err(Error::Cipher(m)) => assert_eq!(m, "invalid nonce length"),
        _ => panic!("expected a cipher error"),
    }
}

#[test]
fn a_nonce_that_is_not_base64_is_refused() {
    let mut c = PASSPHRASE::new("correct horse battery".to_string());
    let mut meta = c.export_metadata();
    meta.salt = "c2FsdHNhbHRzYWx0c2FsdA".to_string();
    meta.nonce = "not base64!".to_string();
    c.import_metadata(meta);
    match c.decrypt_checked(&[0u8; 32]) {
        Err(Error::Cipher(m)) => assert!(m != "aead::Error" && m != "invalid nonce length"),
        _ => panic!("expected a cipher error"),
    }
}

#[test]
fn age_refuses_what_is_not_age() {
    let c = AGE::new("secret".to_string());
    assert_eq!(c.kind(), CipherKind::AGE);
    assert!(matches!(c.decrypt(&EncryptedContent::Bytes(vec![1, 2, 3])), Err(Error::Cipher(_))));
}

#[test]
fn gpg_keeps_its_fingerprint() {
    let mut g = GPG::new("ABC".to_string());
    assert_eq!(g.kind(), CipherKind::GPG);
    g.set_key_fingerprint("DEF".to_string());
    assert_eq!(g.get_key_fingerprint(), "DEF");
}

#[test]
fn fingerprints_are_trimmed_and_uppercased() {
    assert_eq!(format_fingerprint("  abcdef0123  "), "ABCDEF0123");
}

const LISTING: &str = "/home/u/.gnupg/pubring.kbx
--------------------------
pub   rsa3072/ABCDEF0123456789 2023-01-01 [SC]
      abcdef0123456789abcdef0123456789abcdef01
uid                 [ultimate] Alice Example <alice@example.com>
uid                 [ultimate] Alice Work <alice@work.com>
sub   rsa3072/1111222233334444 2023-01-01 [E]

pub   ed25519/0000000000000000 2024-02-02 [SC]
      1234567890ABCDEF1234
uid           [ unknown] Bob <bob@example.com>
";

#[test]
fn the_gpg_listing_gives_the_first_user_of_each_key() {
    let keys = parse_gpg_key_list(LISTING).unwrap();
    assert_eq!(
        keys,
        vec![
            (
                "Alice Example <alice@example.com>".to_string(),
                "ABCDEF0123456789ABCDEF0123456789ABCDEF01".to_string()
            ),
            ("Bob <bob@example.com>".to_string(), "1234567890ABCDEF1234".to_string()),
        ]
    );
}

#[test]
fn an_empty_gpg_listing_has_no_keys() {
    assert_eq!(parse_gpg_key_list("  \n ").unwrap(), vec![]);
}

fn gpg_msg(s: &str) -> String {
    match parse_gpg_key_list(s) {
        Err(Error::Msg(m)) => m,
        other => panic!("expected a message, got {:?}", other.is_ok()),
    }
}

#[test]
fn a_malformed_gpg_listing_is_refused() {
    assert_eq!(gpg_msg("/path\nnot dashes\n"), "Unexpected GPG output format");
    assert_eq!(gpg_msg("/path\n-----\npub   rsa\n      xyz-not-hex\n"), "Invalid fingerprint format");
    assert_eq!(gpg_msg("/path\n-----\npub   rsa\n"), "Missing fingerprint");
    assert_eq!(
        gpg_msg("/path\n-----\npub   rsa\n      ABCDEF0123456789\nuid bogus\n"),
        "Failed to parse user ID"
    );
}

#[test]
fn age_writes_an_age_file_and_reads_it_back() {
    let mut c = AGE::new("secret".to_string());
    let sealed = c.encrypt(b"A=1").unwrap();
    let bytes = match &sealed {
        EncryptedContent::Bytes(b) => b.clone(),
        _ => panic!("expected bytes"),
    };
    assert!(bytes.starts_with(b"age-encryption.org/v1\n"));
    assert!(bytes.len() >= 22 + 3 + 32);
    assert_eq!(c.decrypt(&sealed).unwrap(), b"A=1".to_vec());
}

#[test]
fn fingerprints_lose_their_inner_spaces() {
    assert_eq!(format_fingerprint("ab12 cd34"), "AB12CD34");
    assert_eq!(format_fingerprint(" 0a1b 2c3d\t4e5f "), "0A1B2C3D4E5F");
}

#[test]
fn keys_are_labelled_with_name_and_email() {
    assert_eq!(user_id_label("Alice Example (work) <alice@example.com>"), "Alice Example <alice@example.com>");
    assert_eq!(user_id_label("Bob <bob@example.com>"), "Bob <bob@example.com>");
    assert_eq!(user_id_label("  Carol  "), "Carol <>");
    assert_eq!(user_id_label("<dave@example.com>"), " <dave@example.com>");
    let listing = "/p\n---\npub   rsa\n      ABCDEF0123456789\nuid  [ultimate] Eve (home) <eve@x.org>\n";
    assert_eq!(parse_gpg_key_list(listing).unwrap(), vec![("Eve <eve@x.org>".to_string(), "ABCDEF0123456789".to_string())]);
}
