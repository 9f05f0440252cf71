use passman::genpass;
use passman::password::{password_from_bytes, DEFAULT_PASSWORD_LEN};

#[test]
fn genpass_defaults_to_twelve_characters() {
    let p = genpass(None);
    assert_eq!(p.chars().count(), 12);
    assert_eq!(DEFAULT_PASSWORD_LEN, 12);
    assert!(p.chars().all(|c| c.is_ascii_alphanumeric()));
}

#[test]
fn genpass_gives_the_length_asked_for() {
    for n in [0usize, 1, 5, 64] {
        let p = genpass(Some(n));
        assert_eq!(p.chars().count(), n);
        assert!(p.chars().all(|c| c.is_ascii_alphanumeric()));
    }
}

#[test]
fn password_from_bytes_spells_the_bytes() {
    assert_eq!(password_from_bytes(&vec![72, 105, 48]), "Hi0");
    assert_eq!(password_from_bytes(&vec![]), "");
}
