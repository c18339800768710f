use envio::date::Date;
use envio::dotenv::parse_envs_from_string;
use envio::env::{Env, EnvMap};
use envio::error::Error;

fn keys(m: &EnvMap) -> Vec<String> {
    m.keys()
}

#[test]
fn insert_then_get_gives_the_value() {
    let mut m = EnvMap::new();
    m.insert_from_key_value("A".to_string(), "1".to_string());
    m.insert_from_key_value("B".to_string(), "2".to_string());
    assert_eq!(m.get("A").unwrap().value, "1");
    assert_eq!(m.get("B").unwrap().value, "2");
    assert!(m.get("C").is_none());
    assert_eq!(m.len(), 2);
    assert!(!m.is_empty());
}

#[test]
fn insert_of_an_existing_key_replaces_it_in_place() {
    let mut m = EnvMap::new();
    m.insert_from_key_value("A".to_string(), "1".to_string());
    m.insert_from_key_value("B".to_string(), "2".to_string());
    m.insert_from_key_value("A".to_string(), "3".to_string());
    assert_eq!(keys(&m), vec!["A".to_string(), "B".to_string()]);
    assert_eq!(m.get("A").unwrap().value, "3");
    assert_eq!(m.len(), 2);
}

#[test]
fn remove_undoes_an_insert_of_a_new_key() {
    let mut m = EnvMap::new();
    m.insert_from_key_value("A".to_string(), "1".to_string());
    m.insert_from_key_value("B".to_string(), "2".to_string());
    m.insert(Env::new("C".to_string(), "3".to_string(), Some("note".to_string()), None));
    assert!(m.remove("C").is_ok());
    assert_eq!(m.to_pairs(), vec![("A".to_string(), "1".to_string()), ("B".to_string(), "2".to_string())]);
}

#[test]
fn remove_keeps_the_order_of_the_rest() {
    let mut m = EnvMap::from_pairs(vec![
        ("A".to_string(), "1".to_string()),
        ("B".to_string(), "2".to_string()),
        ("C".to_string(), "3".to_string()),
    ]);
    m.remove("B").unwrap();
    assert_eq!(keys(&m), vec!["A".to_string(), "C".to_string()]);
    assert!(!m.contains_key("B"));
}

#[test]
fn remove_of_a_missing_key_fails_and_changes_nothing() {
    let mut m = EnvMap::from_pairs(vec![("A".to_string(), "1".to_string())]);
    match m.remove("Z") {
        Err(Error::EnvDoesNotExist(k)) => assert_eq!(k, "Z"),
        _ => panic!("expected EnvDoesNotExist"),
    }
    assert_eq!(m.to_pairs(), vec![("A".to_string(), "1".to_string())]);
}

#[test]
fn from_pairs_keeps_the_last_value_of_a_repeated_key() {
    let m = EnvMap::from_pairs(vec![
        ("A".to_string(), "1".to_string()),
        ("B".to_string(), "2".to_string()),
        ("A".to_string(), "9".to_string()),
    ]);
    assert_eq!(m.to_pairs(), vec![("A".to_string(), "9".to_string()), ("B".to_string(), "2".to_string())]);
}

#[test]
fn retain_keeps_the_chosen_variables_in_order() {
    let mut m = EnvMap::from_pairs(vec![
        ("A".to_string(), "1".to_string()),
        ("B".to_string(), "2".to_string()),
        ("C".to_string(), "3".to_string()),
    ]);
    m.retain(|e: &Env| e.key != "B");
    assert_eq!(keys(&m), vec!["A".to_string(), "C".to_string()]);
}

#[test]
fn from_envs_and_values_keep_comments_and_dates() {
    let d = Date::from_ymd(2030, 1, 2).unwrap();
    let m = EnvMap::from_envs(vec![
        Env::new("K".to_string(), "v".to_string(), Some("c".to_string()), Some(d)),
        Env::from_key_value("L".to_string(), "w".to_string()),
    ]);
    let vs = m.values();
    assert_eq!(vs.len(), 2);
    assert_eq!(vs[0].comment.as_deref(), Some("c"));
    assert_eq!(vs[0].expiration_date, Some(d));
    assert_eq!(vs[1].comment, None);
    let copy = m.duplicate();
    assert_eq!(copy.to_pairs(), m.to_pairs());
    assert_eq!(m.get_index(1).unwrap().key, "L");
    assert!(m.get_index(2).is_none());
}

#[test]
fn dotenv_text_reads_key_value_lines() {
    let m = parse_envs_from_string("A=1\nnot a pair\n\nB=x=y\nA=2\n").unwrap();
    assert_eq!(m.to_pairs(), vec![("A".to_string(), "2".to_string()), ("B".to_string(), "x=y".to_string())]);
}

#[test]
fn dotenv_text_without_pairs_reads_as_empty() {
    let m = parse_envs_from_string("# only a comment\n").unwrap();
    assert!(m.is_empty());
    let e = parse_envs_from_string("").unwrap();
    assert_eq!(e.len(), 0);
}

#[test]
fn dotenv_key_may_be_empty() {
    let m = parse_envs_from_string("=v\r\n").unwrap();
    assert_eq!(m.to_pairs(), vec![("".to_string(), "v".to_string())]);
}

#[test]
fn several_variables_are_set_and_removed_in_turn() {
    let mut m = EnvMap::from_pairs(vec![("A".to_string(), "1".to_string()), ("B".to_string(), "2".to_string())]);
    m.insert_envs(vec![
        Env::from_key_value("B".to_string(), "3".to_string()),
        Env::from_key_value("C".to_string(), "4".to_string()),
        Env::from_key_value("C".to_string(), "5".to_string()),
    ]);
    let pairs = |m: &EnvMap| m.to_pairs().into_iter().map(|(k, v)| format!("{}={}", k, v)).collect::<Vec<_>>();
    assert_eq!(pairs(&m), vec!["A=1", "B=3", "C=5"]);
    assert!(m.remove_keys(&["A".to_string(), "C".to_string()]).is_ok());
    assert_eq!(pairs(&m), vec!["B=3"]);
    match m.remove_keys(&["B".to_string(), "Z".to_string(), "Q".to_string()]) {
        Err(Error::EnvDoesNotExist(k)) => assert_eq!(k, "Z"),
        _ => panic!("expected a missing variable"),
    }
    assert!(pairs(&m).is_empty());
}
