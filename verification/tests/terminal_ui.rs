use envio::cipher::CipherKind;
use envio::env::EnvMap;
use envio::profile::{ProfileMetadata, Timestamp};
use envio::tui::app::TuiApp;
use envio::tui::cache::{expired_after, Cached, ProfileCache};
use envio::tui::edit::{EditMode, EditScreen};
use envio::tui::form::{CreateField, CreateProfileScreen, EditProfileScreen, KeySubField};
use envio::tui::get_key::{DecryptOutcome, Feedback, GetKeyScreen};
use envio::tui::input::{cursor_column, field_display, secret_display, step_selection, Action, KeyCode, KeyPress, Status};
use envio::tui::navigation::{NavigationStack, ScreenId};
use envio::tui::select::{filter_indices, sort_by_update, ProfileInfo, SelectScreen};

fn key(c: KeyCode) -> KeyPress {
    KeyPress::plain(c)
}

fn ch(c: char) -> KeyPress {
    KeyPress::plain(KeyCode::Char(c))
}

fn type_text<F: FnMut(KeyPress) -> Action>(mut f: F, s: &str) {
    for c in s.chars() {
        f(ch(c));
    }
}

fn is(id: Option<&ScreenId>, want: &ScreenId) -> bool {
    match id {
        Some(x) => x.same_as(want),
        None => false,
    }
}

#[test]
fn going_back_returns_to_the_previous_screen() {
    let mut nav = NavigationStack::new(ScreenId::Select);
    nav.push(ScreenId::Edit("work".to_string())).unwrap();
    assert!(is(nav.current(), &ScreenId::Edit("work".to_string())));
    let popped = nav.pop().unwrap();
    assert!(popped.same_as(&ScreenId::Edit("work".to_string())));
    assert!(is(nav.current(), &ScreenId::Select));
    assert!(nav.pop().is_none());
    assert!(is(nav.current(), &ScreenId::Select));
}

#[test]
fn an_overlay_shows_over_the_top_screen_until_the_next_move() {
    let mut nav = NavigationStack::new(ScreenId::Select);
    nav.push_overlay(ScreenId::GetKey("p".to_string())).unwrap();
    assert!(is(nav.current(), &ScreenId::GetKey("p".to_string())));
    assert!(nav.pop().is_none());
    assert!(is(nav.current(), &ScreenId::Select));
}

#[test]
fn the_history_keeps_the_latest_fifty_screens() {
    let mut nav = NavigationStack::new(ScreenId::Select);
    for i in 0..60 {
        nav.push(ScreenId::Edit(format!("p{}", i))).unwrap();
    }
    let mut count = 1;
    while nav.pop().is_some() {
        count += 1;
    }
    assert_eq!(count, 50);
    assert!(is(nav.current(), &ScreenId::Edit("p10".to_string())));
}

#[test]
fn the_app_follows_the_screens_requests() {
    let mut app = TuiApp::new();
    assert!(!app.exit());
    assert!(app.handle_action(Action::NewProfile).is_none());
    assert!(is(app.navigation().current(), &ScreenId::CreateProfile));
    assert!(app.handle_action(Action::Back).is_none());
    assert!(is(app.navigation().current(), &ScreenId::Select));
    assert!(app.handle_action(Action::EditProfile("p".to_string())).is_none());
    assert!(is(app.navigation().current(), &ScreenId::EditProfile("p".to_string())));
    assert!(matches!(app.handle_action(Action::OpenProfile("q".to_string())), Some(Action::OpenProfile(n)) if n == "q"));
    assert!(app.handle_action(Action::Nothing).is_none());
    assert!(app.handle_action(Action::Exit).is_none());
    assert!(app.exit());
}

#[test]
fn a_passphrase_profile_asks_for_its_key_unless_cached() {
    let mut app = TuiApp::new();
    assert!(!app.open_profile("p".to_string(), CipherKind::PASSPHRASE, false));
    assert!(is(app.navigation().current(), &ScreenId::GetKey("p".to_string())));
    let mut app = TuiApp::new();
    assert!(!app.open_profile("p".to_string(), CipherKind::AGE, true));
    assert!(is(app.navigation().current(), &ScreenId::Edit("p".to_string())));
    let mut app = TuiApp::new();
    assert!(app.open_profile("p".to_string(), CipherKind::NONE, false));
    assert!(is(app.navigation().current(), &ScreenId::Select));
    app.profile_opened("p".to_string());
    assert!(is(app.navigation().current(), &ScreenId::Edit("p".to_string())));
}

#[test]
fn a_selection_steps_within_the_list() {
    assert_eq!(step_selection(Some(0), -1, 3), 0);
    assert_eq!(step_selection(Some(1), 1, 3), 2);
    assert_eq!(step_selection(Some(2), 1, 3), 2);
    assert_eq!(step_selection(None, 1, 3), 1);
}

#[test]
fn statuses_clear_on_a_key_and_follow_saves() {
    assert!(matches!(Status::Saved.after_key(), Status::Idle));
    assert!(matches!(Status::Saving.after_key(), Status::Saving));
    assert!(matches!(Status::Saving.after_save(Some(Ok(()))), Status::Saved));
    assert!(matches!(Status::Saving.after_save(Some(Err("x".to_string()))), Status::Error(m) if m == "x"));
    assert!(matches!(Status::Saving.after_save(None), Status::Saving));
}

#[test]
fn fields_show_their_text_or_a_placeholder() {
    assert_eq!(field_display("", "Name..."), ("Name...".to_string(), true));
    assert_eq!(field_display("abc", "Name..."), ("abc".to_string(), false));
    assert_eq!(secret_display("", "Key..."), ("Key...".to_string(), true));
    assert_eq!(secret_display("abc", "Key..."), ("***".to_string(), false));
    assert_eq!(secret_display("é", "Key..."), ("**".to_string(), false));
    assert_eq!(cursor_column(10, 20, 3), 14);
    assert_eq!(cursor_column(10, 20, 30), 28);
}

fn meta(name: &str, updated: i64, desc: Option<&str>) -> ProfileMetadata {
    ProfileMetadata {
        name: name.to_string(),
        version: "0.1.0".to_string(),
        description: desc.map(|d| d.to_string()),
        file_path: format!("/p/{}.env", name),
        cipher_kind: CipherKind::NONE,
        cipher_metadata: None,
        created_at: Timestamp { secs: 0, nanos: 0, offset: 0 },
        updated_at: Timestamp { secs: updated, nanos: 0, offset: 0 },
    }
}

fn profile(name: &str, updated: i64) -> ProfileInfo {
    ProfileInfo { name: name.to_string(), metadata: meta(name, updated, None) }
}

fn names(ps: &[ProfileInfo]) -> Vec<String> {
    ps.iter().map(|p| p.name.clone()).collect()
}

#[test]
fn profiles_are_listed_latest_first() {
    let sorted = sort_by_update(vec![profile("a", 10), profile("b", 30), profile("c", 20), profile("d", 30)]);
    let got = names(&sorted);
    assert_eq!(got[2..], ["c".to_string(), "a".to_string()]);
    assert!(got[..2].contains(&"b".to_string()) && got[..2].contains(&"d".to_string()));
}

#[test]
fn the_search_keeps_the_names_that_hold_it() {
    let lowered = vec!["work".to_string(), "home".to_string(), "homework".to_string()];
    assert_eq!(filter_indices(&lowered, "work"), vec![0, 2]);
    assert_eq!(filter_indices(&lowered, ""), vec![0, 1, 2]);
    assert_eq!(filter_indices(&lowered, "zzz"), Vec::<usize>::new());
}

#[test]
fn the_profile_list_searches_opens_and_deletes() {
    let mut s = SelectScreen::new(vec![profile("Work", 1), profile("home", 3), profile("homework", 2)]);
    assert_eq!(names(s.profiles()), vec!["home", "homework", "Work"]);
    assert_eq!(s.selected(), Some(0));
    assert!(matches!(s.handle_key_event(key(KeyCode::Down)), Action::Nothing));
    assert!(matches!(s.handle_key_event(key(KeyCode::Enter)), Action::OpenProfile(n) if n == "homework"));

    s.handle_key_event(ch('/'));
    assert!(s.search_mode());
    type_text(|k| s.handle_key_event(k), "WORK");
    assert_eq!(s.search_input(), "WORK");
    assert_eq!(s.filtered_profiles(), &vec![1, 2]);
    s.handle_key_event(key(KeyCode::Backspace));
    assert_eq!(s.search_input(), "WOR");
    s.handle_key_event(key(KeyCode::Esc));
    assert!(!s.search_mode());

    let target = s.get_selected_profile().unwrap().name.clone();
    s.handle_key_event(ch('d'));
    assert_eq!(s.delete_confirmation(), Some(target.as_str()));
    assert!(matches!(s.handle_key_event(ch('n')), Action::Nothing));
    assert_eq!(s.delete_confirmation(), None);
    s.handle_key_event(ch('d'));
    assert!(matches!(s.handle_key_event(ch('y')), Action::DeleteProfile(n) if n == target));

    assert!(matches!(s.handle_key_event(ch('n')), Action::NewProfile));
    assert!(matches!(s.handle_key_event(key(KeyCode::Esc)), Action::Exit));
}

#[test]
fn an_empty_profile_list_opens_nothing() {
    let mut s = SelectScreen::new(vec![]);
    assert_eq!(s.selected(), None);
    assert!(matches!(s.handle_key_event(key(KeyCode::Enter)), Action::Nothing));
    assert!(matches!(s.handle_key_event(ch('e')), Action::Nothing));
    s.reload_profiles(vec![profile("x", 1)]);
    assert!(matches!(s.handle_key_event(ch('e')), Action::EditProfile(n) if n == "x"));
}

fn rows(e: &EditScreen) -> Vec<(String, String)> {
    e.envs().iter().map(|v| (v.key.clone(), v.value.clone())).collect()
}

#[test]
fn the_edit_screen_edits_keys_and_values_in_place() {
    let m = EnvMap::from_pairs(vec![("A".to_string(), "1".to_string()), ("B".to_string(), "2".to_string())]);
    let mut e = EditScreen::new(&m);
    assert_eq!(e.selected(), Some(0));
    e.handle_key_event(key(KeyCode::Right));
    assert_eq!(e.edit_mode(), EditMode::Value(0));
    assert_eq!(e.edit_buffer(), "1");
    e.handle_key_event(key(KeyCode::Backspace));
    type_text(|k| e.handle_key_event(k), "10");
    assert_eq!(e.display_rows()[0], ("A".to_string(), "10".to_string()));
    e.handle_key_event(key(KeyCode::Enter));
    assert_eq!(e.edit_mode(), EditMode::Nothing);
    assert_eq!(rows(&e)[0], ("A".to_string(), "10".to_string()));

    e.handle_key_event(ch('j'));
    e.handle_key_event(key(KeyCode::Enter));
    assert_eq!(e.edit_mode(), EditMode::Key(1));
    e.handle_key_event(key(KeyCode::Backspace));
    type_text(|k| e.handle_key_event(k), "C ");
    e.handle_key_event(key(KeyCode::Enter));
    assert_eq!(rows(&e)[1], ("C".to_string(), "2".to_string()));
}

#[test]
fn a_new_row_left_blank_goes_away() {
    let m = EnvMap::from_pairs(vec![("A".to_string(), "1".to_string())]);
    let mut e = EditScreen::new(&m);
    e.handle_key_event(ch('a'));
    assert_eq!(e.envs().len(), 2);
    assert_eq!(e.edit_mode(), EditMode::Key(1));
    e.handle_key_event(key(KeyCode::Esc));
    assert_eq!(e.envs().len(), 1);
    assert_eq!(e.selected(), Some(0));
}

#[test]
fn the_edit_screen_deletes_and_saves() {
    let m = EnvMap::from_pairs(vec![
        ("A".to_string(), "1".to_string()),
        ("B".to_string(), "2".to_string()),
        ("A".to_string(), "3".to_string()),
    ]);
    let mut e = EditScreen::new(&m);
    e.handle_key_event(ch('d'));
    assert_eq!(rows(&e), vec![("B".to_string(), "2".to_string())]);
    match e.handle_key_event(ch('s')) {
        Action::SaveEnvs(saved) => assert_eq!(saved.to_pairs(), vec![("B".to_string(), "2".to_string())]),
        _ => panic!("expected a save"),
    }
    assert!(matches!(e.status(), Status::Saving));
    e.check_save(Some(Ok(())));
    assert!(matches!(e.status(), Status::Saved));
    assert!(matches!(e.handle_key_event(key(KeyCode::Esc)), Action::Back));
}

#[test]
fn the_create_form_checks_before_it_creates() {
    let mut f = CreateProfileScreen::new(vec![]);
    assert_eq!(f.current_field(), CreateField::Name);
    assert!(matches!(f.save(), Action::Nothing));
    assert!(matches!(f.status(), Status::Error(m) if m == "Name cannot be empty"));
    type_text(|k| f.handle_key_event(k), "my work");
    assert_eq!(f.name(), "mywork");
    f.handle_key_event(key(KeyCode::Tab));
    assert_eq!(f.current_field(), CreateField::Description);
    type_text(|k| f.handle_key_event(k), "desc");
    match f.handle_key_event(KeyPress::with_ctrl(KeyCode::Char('s'))) {
        Action::CreateProfile { name, description, cipher_kind, key } => {
            assert_eq!(name, "mywork");
            assert_eq!(description.as_deref(), Some("desc"));
            assert_eq!(cipher_kind, CipherKind::NONE);
            assert_eq!(key, None);
        }
        _ => panic!("expected a profile"),
    }
}

#[test]
fn a_passphrase_must_be_long_and_confirmed() {
    let mut f = CreateProfileScreen::new(vec![]);
    type_text(|k| f.handle_key_event(k), "p");
    f.move_to_next_field();
    f.move_to_next_field();
    assert_eq!(f.current_field(), CreateField::CipherKind);
    f.move_cipher_selection(1);
    assert_eq!(f.get_selected_cipher_kind(), CipherKind::PASSPHRASE);
    f.handle_key_event(key(KeyCode::Tab));
    assert_eq!(f.current_field(), CreateField::Key);
    assert_eq!(f.key_sub_field(), KeySubField::Passphrase);
    type_text(|k| f.handle_key_event(k), "short");
    f.save();
    assert!(matches!(f.status(), Status::Error(m) if m == "Passphrase must be at least 8 characters"));
    type_text(|k| f.handle_key_event(k), "-enough");
    f.handle_key_event(key(KeyCode::Tab));
    assert_eq!(f.key_sub_field(), KeySubField::PassphraseConfirm);
    type_text(|k| f.handle_key_event(k), "different");
    f.save();
    assert!(matches!(f.status(), Status::Error(m) if m == "Passphrases do not match"));
    for _ in 0.."different".len() {
        f.handle_key_event(key(KeyCode::Backspace));
    }
    type_text(|k| f.handle_key_event(k), "short-enough");
    assert_eq!(f.passphrase_lengths(), (12, 12));
    match f.save() {
        Action::CreateProfile { key, cipher_kind, .. } => {
            assert_eq!(cipher_kind, CipherKind::PASSPHRASE);
            assert_eq!(key.as_deref(), Some("short-enough"));
        }
        _ => panic!("expected a profile"),
    }
}

#[test]
fn a_gpg_profile_takes_the_selected_key() {
    let mut f = CreateProfileScreen::new(vec![("A <a@x>".to_string(), "AAAA".to_string()), ("B <b@x>".to_string(), "BBBB".to_string())]);
    type_text(|k| f.handle_key_event(k), "g");
    f.move_to_next_field();
    f.move_to_next_field();
    f.move_cipher_selection(3);
    assert_eq!(f.get_selected_cipher_kind(), CipherKind::GPG);
    f.move_gpg_selection(1);
    assert_eq!(f.get_selected_gpg_key(), Some("BBBB".to_string()));
    match f.save() {
        Action::CreateProfile { key, cipher_kind, .. } => {
            assert_eq!(cipher_kind, CipherKind::GPG);
            assert_eq!(key.as_deref(), Some("BBBB"));
        }
        _ => panic!("expected a profile"),
    }
}

#[test]
fn the_edit_form_renames_a_profile() {
    let m = meta("old", 0, Some("d"));
    let mut f = EditProfileScreen::new("old".to_string(), &m);
    assert_eq!(f.name(), "old");
    assert_eq!(f.description(), "d");
    type_text(|k| f.handle_key_event(k), "er");
    f.move_to_next_field();
    f.handle_key_event(key(KeyCode::Backspace));
    match f.handle_key_event(KeyPress::with_ctrl(KeyCode::Char('s'))) {
        Action::UpdateProfile { old_name, name, description } => {
            assert_eq!(old_name, "old");
            assert_eq!(name, "older");
            assert_eq!(description, None);
        }
        _ => panic!("expected an update"),
    }
    assert!(matches!(f.handle_key_event(key(KeyCode::Esc)), Action::Back));
}

#[test]
fn the_key_screen_asks_to_decrypt_and_reports() {
    let mut g = GetKeyScreen::new("p".to_string());
    type_text(|k| g.handle_key_event(k), "secret");
    assert_eq!(g.key_len(), 6);
    match g.handle_key_event(key(KeyCode::Enter)) {
        Action::Decrypt { name, passphrase } => {
            assert_eq!(name, "p");
            assert_eq!(passphrase, "secret");
        }
        _ => panic!("expected a decryption"),
    }
    assert!(matches!(g.feedback(), Some(Feedback::Decrypting)));
    assert!(!g.check_decrypt(None));
    assert!(!g.check_decrypt(Some(DecryptOutcome::Failed)));
    assert!(matches!(g.feedback(), Some(Feedback::IncorrectKey)));
    assert!(!g.check_decrypt(Some(DecryptOutcome::Panicked)));
    assert!(matches!(g.feedback(), Some(Feedback::DecryptionFailed(m)) if m == "Decryption thread panicked"));
    assert!(g.check_decrypt(Some(DecryptOutcome::Decrypted)));
    assert!(matches!(g.handle_key_event(key(KeyCode::Esc)), Action::Back));
}

#[test]
fn the_cache_keeps_one_fresh_value_per_name() {
    let mut c: ProfileCache<u32> = ProfileCache::new();
    assert!(!c.has_profile("a"));
    c.insert_profile("a".to_string(), 1);
    c.insert_profile("b".to_string(), 2);
    c.insert_profile("a".to_string(), 3);
    assert!(c.has_profile("a"));
    assert_eq!(c.get_profile("a"), Some(&3));
    assert_eq!(c.get_profile("b"), Some(&2));
    assert_eq!(c.get_profile("z"), None);
    c.cleanup_expired();
    assert!(c.has_profile("a") && c.has_profile("b"));
    let fresh = Cached::new(5u8);
    assert_eq!(fresh.value, 5);
    assert!(!fresh.is_expired());
}

#[test]
fn a_profile_copy_has_the_same_contents() {
    let cipher = envio::profile::create_cipher(CipherKind::AGE, Some("k".to_string())).unwrap();
    let m = EnvMap::from_pairs(vec![("A".to_string(), "1".to_string())]);
    let p = envio::profile::Profile::new("n".to_string(), None, "/p/n.env".to_string(), m, cipher);
    let q = p.duplicate();
    assert_eq!(q.metadata.name, "n");
    assert_eq!(q.envs.to_pairs(), p.envs.to_pairs());
    match q.cipher {
        envio::profile::ProfileCipher::Age(a) => assert_eq!(a.get_key(), "k"),
        _ => panic!("expected an age cipher"),
    }
}

#[test]
fn cached_values_expire_after_ten_seconds() {
    assert!(!expired_after(0));
    assert!(!expired_after(9_999_999_999));
    assert!(expired_after(10_000_000_000));
    assert!(expired_after(u128::MAX));
}

#[test]
fn an_expired_entry_is_dropped_on_lookup() {
    let mut c: ProfileCache<u32> = ProfileCache::new();
    c.insert_profile("a".to_string(), 1);
    c.insert_profile("b".to_string(), 2);
    assert_eq!(c.get_profile_after("a", 9_999_999_999), Some(&1));
    assert!(c.has_profile("a"));
    assert_eq!(c.get_profile_after("a", 10_000_000_000), None);
    assert!(!c.has_profile("a"));
    assert!(c.has_profile("b"));
    assert_eq!(c.get_profile_after("z", 0), None);
}

#[test]
fn adding_a_row_then_escape_leaves_the_rows() {
    let m = EnvMap::from_pairs(vec![("A".to_string(), "1".to_string())]);
    let mut s = EditScreen::new(&m);
    assert!(matches!(s.handle_key_event(ch('a')), Action::Nothing));
    assert_eq!(s.envs().len(), 2);
    assert!(matches!(s.handle_key_event(key(KeyCode::Esc)), Action::Nothing));
    assert_eq!(s.envs().len(), 1);
    assert_eq!(s.envs()[0].key, "A");
    assert!(matches!(s.edit_mode(), EditMode::Nothing));
    assert_eq!(s.edit_buffer(), "");
}
