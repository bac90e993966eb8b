use pm::hashing::to_hex_lower;
use pm::secret::Secret;
use pm::store::Store;

fn secret(hash: &str, name: &str) -> Secret {
    Secret::new(hash.to_string(), name.to_string(), format!("{}-user", name), format!("{}-pass", name))
}

#[test]
fn secret_getters_and_text() {
    let s = Secret::new("h".to_string(), "site".to_string(), "me".to_string(), "pw".to_string());
    assert_eq!(s.get_hash(), "h");
    assert_eq!(s.get_name(), "site");
    assert_eq!(s.get_username(), "me");
    assert_eq!(s.get_password(), "pw");
    assert_eq!(s.to_display(), "name=site, username=me, password=pw");
}

#[test]
fn hex_is_lowercase_two_digits_per_byte() {
    assert_eq!(to_hex_lower(&[10, 20, 30]), "0a141e");
    assert_eq!(to_hex_lower(&[0, 255, 171]), "00ffab");
    assert_eq!(to_hex_lower(&[]), "");
}

#[test]
fn add_secret_at_hashes_with_sha256() {
    let mut store = Store::default();
    store.add_secret_at(String::new(), String::new(), String::new(), String::new());
    let all = store.get_secrets();
    assert_eq!(all.len(), 1);
    assert_eq!(all[0].get_hash(), "e3b0c44298fc1c149afbf4c8996fb92427ae41e4649b934ca495991b7852b855");

    let mut store = Store::default();
    // name, text, time stamp, user: hashed in that order
    store.add_secret_at("a".to_string(), "d".to_string(), "b".to_string(), "c".to_string());
    let s = store.get_secret("a").unwrap();
    assert_eq!(s.get_hash(), "88d4266fd4e6338d13b845fcf289579d209c897823b9217da3e161936f031589");
    assert_eq!(s.get_username(), "d");
    assert_eq!(s.get_password(), "b");
}

#[test]
fn add_secret_then_get_and_delete() {
    let mut store = Store::from_secrets("secrets.json".to_string(), Vec::new());
    assert_eq!(store.file(), "secrets.json");
    assert!(store.add_secret("mail".to_string(), "me".to_string(), "pw".to_string()));
    let s = store.get_secret("mail").unwrap();
    assert_eq!(s.get_hash().len(), 64);
    let mut undated = Store::default();
    undated.add_secret_at("mail".to_string(), "me".to_string(), "pw".to_string(), String::new());
    assert_ne!(undated.get_secret("mail").unwrap().get_hash(), s.get_hash());
    assert_eq!(s.to_display(), "name=mail, username=me, password=pw");
    assert!(store.get_secret("bank").is_none());
    store.del_secret("mail".to_string());
    assert!(store.get_secret("mail").is_none());
    assert_eq!(store.get_secrets().len(), 0);
}

#[test]
fn same_hash_is_stored_once() {
    let mut store = Store::default();
    store.add_secret_at("n".to_string(), "u".to_string(), "t".to_string(), "now".to_string());
    store.add_secret_at("n".to_string(), "u".to_string(), "t".to_string(), "now".to_string());
    assert_eq!(store.get_secrets().len(), 1);
    store.add_secret_at("n".to_string(), "u".to_string(), "t".to_string(), "later".to_string());
    assert_eq!(store.get_secrets().len(), 2);
}

#[test]
fn from_secrets_keeps_the_later_of_equal_hashes() {
    let store = Store::from_secrets(
        "f".to_string(),
        vec![secret("h1", "a"), secret("h2", "b"), secret("h1", "c")],
    );
    let all = store.get_secrets();
    assert_eq!(all.len(), 2);
    assert_eq!(all[0].get_hash(), "h1");
    assert_eq!(all[0].get_name(), "c");
    assert_eq!(all[1].get_name(), "b");
    assert!(store.get_secret("a").is_none());
}

#[test]
fn get_secret_finds_the_first_of_equal_names() {
    let store = Store::from_secrets("f".to_string(), vec![secret("h1", "x"), secret("h2", "x")]);
    assert_eq!(store.get_secret("x").unwrap().get_hash(), "h1");
}

#[test]
fn del_secret_removes_one_secret() {
    let mut store = Store::from_secrets("f".to_string(), vec![secret("h1", "x"), secret("h2", "x"), secret("h3", "y")]);
    store.del_secret("x".to_string());
    let all = store.get_secrets();
    assert_eq!(all.len(), 2);
    assert_eq!(all[0].get_hash(), "h2");
    assert_eq!(all[1].get_hash(), "h3");
}

#[test]
#[allow(unused_must_use)]
fn store_text_lists_each_secret_on_its_own_line() {
    let store = Store::from_secrets("f".to_string(), vec![secret("h1", "a"), secret("h2", "b")]);
    assert_eq!(
        store.to_display(),
        "name=a, username=a-user, password=a-pass\nname=b, username=b-user, password=b-pass\n"
    );
    assert_eq!(Store::default().to_display(), "");
}
