use passman::{Error, ErrorKind, PassMan};

#[test]
fn lib_it_should_save_a_pass_and_get_it_inmemory() {
    let mut passman = PassMan::new("testdb.test", None);
    passman.save_or_update("test1", "user1", "pass1");
    passman.save_or_update("test2", "user2", "pass2");
    passman.save_or_update("test1", "user3", "pass3");

    assert_eq!(passman.get("test1", "user1"), Some(String::from("pass1")));
    assert_eq!(passman.get("test2", "user2"), Some(String::from("pass2")));
    assert_eq!(passman.get("test1", "user3"), Some(String::from("pass3")));
}

#[test]
fn lib_it_should_save_a_pass_and_get_it_in_a_file() {
    let mut passman = PassMan::new("testdb.test", None);
    passman.save_or_update("test1", "user1", "pass1");
    passman.save_or_update("test2", "user2", "pass2");
    passman.save_or_update("test1", "user3", "pass3");
    let contents = passman.save().unwrap();

    let passman = PassMan::new("testdb.test", Some(contents));

    assert_eq!(passman.get("test1", "user1"), Some(String::from("pass1")));
    assert_eq!(passman.get("test2", "user2"), Some(String::from("pass2")));
    assert_eq!(passman.get("test1", "user3"), Some(String::from("pass3")));
}

#[test]
fn main_it_should_save_a_pass_and_get_it_inmemory() {
    let mut passman = PassMan::new("testdb.test", None);
    passman.save_or_update("test1", "user1", "pass1");
    passman.save_or_update("test2", "user2", "pass2");
    passman.save_or_update("test1", "user3", "pass3");

    assert_eq!(passman.get("test1", "user1"), Some(String::from("pass1")));
    assert_eq!(passman.get("test2", "user2"), Some(String::from("pass2")));
    assert_eq!(passman.get("test1", "user3"), Some(String::from("pass3")));
}

#[test]
fn main_it_should_save_a_pass_and_get_it_in_a_file() {
    let mut passman = PassMan::new("testdb.test", None);
    passman.save_or_update("test1", "user1", "pass1");
    passman.save_or_update("test2", "user2", "pass2");
    passman.save_or_update("test1", "user3", "pass3");
    let contents = passman.save().unwrap();

    let passman = PassMan::new("testdb.test", Some(contents));

    assert_eq!(passman.get("test1", "user1"), Some(String::from("pass1")));
    assert_eq!(passman.get("test2", "user2"), Some(String::from("pass2")));
    assert_eq!(passman.get("test1", "user3"), Some(String::from("pass3")));
}

fn le(n: u64) -> Vec<u8> {
    n.to_le_bytes().to_vec()
}

#[test]
fn get_of_a_missing_key_is_none() {
    let mut passman = PassMan::new("db", None);
    assert_eq!(passman.get("site", "user"), None);
    passman.save_or_update("site", "user", "secret");
    assert_eq!(passman.get("site", "other"), None);
    assert_eq!(passman.get("other", "user"), None);
    assert_eq!(passman.get("siteuser", ""), None);
}

#[test]
fn save_or_update_replaces_the_password_of_a_key() {
    let mut passman = PassMan::new("db", None);
    passman.save_or_update("site", "user", "first");
    passman.save_or_update("other", "user", "kept");
    passman.save_or_update("site", "user", "second");
    assert_eq!(passman.get("site", "user"), Some(String::from("second")));
    assert_eq!(passman.get("other", "user"), Some(String::from("kept")));
    // the replaced entry stays where it was: two entries, site first
    let mut expected = le(2);
    for s in ["site", "user", "second", "other", "user", "kept"] {
        expected.extend(le(s.len() as u64));
        expected.extend(s.as_bytes());
    }
    assert_eq!(passman.save().unwrap(), expected);
}

#[test]
fn empty_strings_are_keys_like_any_other() {
    let mut passman = PassMan::new("db", None);
    passman.save_or_update("", "", "");
    assert_eq!(passman.get("", ""), Some(String::new()));
    assert_eq!(passman.get("", "x"), None);
}

#[test]
fn save_of_an_empty_store_is_a_zero_length() {
    let passman = PassMan::new("db", None);
    assert_eq!(passman.save().unwrap(), vec![0u8; 8]);
}

#[test]
fn save_writes_bincode_fixed_width_layout() {
    let mut passman = PassMan::new("db", None);
    passman.save_or_update("gh", "me", "pw\u{e9}");
    let mut expected = le(1);
    expected.extend(le(2));
    expected.extend(b"gh");
    expected.extend(le(2));
    expected.extend(b"me");
    expected.extend(le(4));
    expected.extend("pw\u{e9}".as_bytes());
    assert_eq!(passman.save().unwrap(), expected);
}

#[test]
fn new_without_contents_is_empty_and_keeps_the_file_name() {
    let passman = PassMan::new("some/file", None);
    assert_eq!(passman.data_file(), "some/file");
    assert_eq!(passman.save().unwrap(), vec![0u8; 8]);
}

#[test]
fn new_reads_the_layout_that_save_writes() {
    let mut bytes = le(1);
    for s in ["a", "b", "c"] {
        bytes.extend(le(1));
        bytes.extend(s.as_bytes());
    }
    let passman = PassMan::new("f", Some(bytes));
    assert_eq!(passman.get("a", "b"), Some(String::from("c")));
    assert_eq!(passman.data_file(), "f");
}

#[test]
fn new_lets_a_later_entry_replace_an_earlier_one() {
    let mut bytes = le(2);
    for s in ["a", "b", "old", "a", "b", "new"] {
        bytes.extend(le(s.len() as u64));
        bytes.extend(s.as_bytes());
    }
    let passman = PassMan::new("f", Some(bytes));
    assert_eq!(passman.get("a", "b"), Some(String::from("new")));
    let mut expected = le(1);
    for s in ["a", "b", "new"] {
        expected.extend(le(s.len() as u64));
        expected.extend(s.as_bytes());
    }
    assert_eq!(passman.save().unwrap(), expected);
}

#[test]
fn try_new_refuses_truncated_contents() {
    let mut bytes = le(1);
    bytes.extend(le(5));
    bytes.extend(b"ab");
    let r = PassMan::try_new("f", Some(bytes));
    assert!(matches!(r, Err(Error { kind: ErrorKind::Serialization(_) })));
}

#[test]
fn try_new_refuses_strings_that_are_not_utf8() {
    let mut bytes = le(1);
    bytes.extend(le(1));
    bytes.push(0xff);
    bytes.extend(le(1));
    bytes.extend(b"u");
    bytes.extend(le(1));
    bytes.extend(b"p");
    let r = PassMan::try_new("f", Some(bytes));
    assert!(matches!(r, Err(Error { kind: ErrorKind::Serialization(_) })));
}

#[test]
fn save_then_new_gives_back_every_password() {
    let mut passman = PassMan::new("f", None);
    for i in 0..20 {
        passman.save_or_update(&format!("site{}", i % 7), &format!("user{}", i % 3), &format!("pass{}", i));
    }
    let reloaded = PassMan::new("f", Some(passman.save().unwrap()));
    for s in 0..7 {
        for u in 0..3 {
            let site = format!("site{}", s);
            let user = format!("user{}", u);
            assert_eq!(reloaded.get(&site, &user), passman.get(&site, &user));
        }
    }
}

#[test]
fn from_entries_inserts_in_order() {
    let entries = vec![
        ((String::from("s"), String::from("u")), String::from("1")),
        ((String::from("t"), String::from("u")), String::from("2")),
        ((String::from("s"), String::from("u")), String::from("3")),
    ];
    let passman = PassMan::from_entries("x", entries);
    assert_eq!(passman.get("s", "u"), Some(String::from("3")));
    assert_eq!(passman.get("t", "u"), Some(String::from("2")));
    assert_eq!(passman.data_file(), "x");
}

#[test]
fn empty_store_has_no_passwords() {
    let passman = PassMan::empty("x");
    assert_eq!(passman.get("s", "u"), None);
    assert_eq!(passman.data_file(), "x");
}

#[test]
fn try_new_accepts_what_new_accepts() {
    let r = PassMan::try_new("f", None).unwrap();
    assert_eq!(r.get("a", "b"), None);
    let mut p = PassMan::new("f", None);
    p.save_or_update("a", "b", "c");
    let r = PassMan::try_new("f", Some(p.save().unwrap())).unwrap();
    assert_eq!(r.get("a", "b"), Some(String::from("c")));
    assert_eq!(r.data_file(), "f");
}

#[test]
fn try_new_refuses_empty_contents() {
    let r = PassMan::try_new("f", Some(Vec::new()));
    assert!(matches!(r, Err(Error { kind: ErrorKind::Serialization(_) })));
}

#[test]
fn the_last_write_wins_over_a_sequence_of_updates() {
    let mut p = PassMan::new("f", None);
    p.save_or_update("s", "u", "1");
    p.save_or_update("t", "u", "2");
    p.save_or_update("s", "u", "3");
    p.save_or_update("t", "v", "4");
    p.save_or_update("s", "u", "5");
    assert_eq!(p.get("s", "u"), Some(String::from("5")));
    assert_eq!(p.get("t", "u"), Some(String::from("2")));
    assert_eq!(p.get("t", "v"), Some(String::from("4")));
}

#[test]
fn saving_twice_gives_the_same_bytes() {
    let mut p = PassMan::new("f", None);
    p.save_or_update("s", "u", "1");
    assert_eq!(p.save().unwrap(), p.save().unwrap());
}
