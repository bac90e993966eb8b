use base64::Engine;
use pm::cli::{Cli, Cmd};
use pm::entry::{millis_of, Entry};
use pm::error::AppError;
use pm::vault::{EncryptedVault, Vault};

#[test]
fn new_vault_is_empty() {
    let v = Vault::new();
    assert_eq!(v.salt, "");
    assert!(v.entries.is_empty());
    assert!(v.get_all().is_empty());
    assert!(v.get_entry("x").is_none());
}

#[test]
fn added_entries_are_found_by_name() {
    let mut v = Vault::new();
    assert!(v.add_entry("mail".to_string(), "pw1".to_string(), "work".to_string()));
    assert!(v.add_entry("bank".to_string(), "pw2".to_string(), "".to_string()));
    assert!(v.add_entry("mail".to_string(), "pw3".to_string(), "home".to_string()));
    let e = v.get_entry("mail").unwrap();
    assert_eq!(e.pass, "pw1");
    assert_eq!(e.desc, "work");
    assert_eq!(v.get_entry("bank").unwrap().pass, "pw2");
    assert!(v.get_entry("shop").is_none());
    let all = v.get_all();
    assert_eq!(all.len(), 3);
    assert_eq!(all[2].pass, "pw3");
}

#[test]
fn entry_new_keeps_its_fields() {
    let e = Entry::new("n".to_string(), "p".to_string(), "d".to_string()).unwrap();
    assert_eq!(e.name, "n");
    assert_eq!(e.pass, "p");
    assert_eq!(e.desc, "d");
    assert!(e.when > 0);
    let c = e.clone();
    assert_eq!(c.when, e.when);
    assert_eq!(millis_of(1234, 567_000_000), 1_234_567);
    assert_eq!(millis_of(0, 999_999), 0);
    assert_eq!(millis_of(u64::MAX, 999_999_999), u64::MAX as u128 * 1000 + 999);
    let at = Entry::new_at("n".to_string(), "p".to_string(), "d".to_string(), 1234);
    assert_eq!(at.when, 1234);
    assert_eq!(at.name, "n");
}

#[test]
fn prepare_salt_makes_and_keeps_a_salt() {
    let mut v = Vault::new();
    let salt = v.prepare_salt().unwrap().unwrap();
    assert_eq!(salt.len(), 16);
    assert_eq!(v.salt.len(), 24);
    let kept = v.salt.clone();
    let again = v.prepare_salt().unwrap().unwrap();
    assert_eq!(again, salt);
    assert_eq!(v.salt, kept);
    let enc = Vault::seal(&again, "s", b"x").unwrap().unwrap();
    assert_eq!(enc.salt, kept);
    let mut other = Vault::new();
    assert_ne!(other.prepare_salt().unwrap().unwrap(), salt);
    let enc2 = Vault::seal(&again, "s", b"x").unwrap().unwrap();
    assert_ne!(enc2.nonce, enc.nonce);

    let mut fixed = Vault::new();
    fixed.salt = "AAECAw==".to_string();
    assert_eq!(fixed.prepare_salt().unwrap().unwrap(), vec![0, 1, 2, 3]);

    let mut broken = Vault::new();
    broken.salt = "not base64!".to_string();
    assert!(matches!(broken.prepare_salt(), Some(Err(AppError::DeserializeError(_)))));
    assert_eq!(broken.salt, "not base64!");
}

#[test]
fn seal_with_nonce_writes_base64_fields() {
    let enc = Vault::seal_with_nonce(&[0u8; 16], "secret", b"hello", &[0u8; 12]).unwrap();
    assert_eq!(enc.salt, "AAAAAAAAAAAAAAAAAAAAAA==");
    assert_eq!(enc.nonce, "AAAAAAAAAAAAAAAA");
    // five plaintext bytes and a sixteen-byte tag: 21 bytes, 28 base64 characters
    assert_eq!(enc.ciphertext.len(), 28);
    let again = Vault::seal_with_nonce(&[0u8; 16], "secret", b"hello", &[0u8; 12]).unwrap();
    assert_eq!(again.ciphertext, enc.ciphertext);
    let other = Vault::seal_with_nonce(&[0u8; 16], "secret!", b"hello", &[0u8; 12]).unwrap();
    assert_ne!(other.ciphertext, enc.ciphertext);
}

#[test]
fn seal_then_unseal_gives_the_plaintext_back() {
    let plaintext = br#"{"salt":"","entries":[]}"#;
    let enc = Vault::seal(&[7u8; 16], "master", plaintext).unwrap().unwrap();
    assert_eq!(Vault::unseal(&enc, "master").unwrap().unwrap(), plaintext.to_vec());
}

#[test]
fn unseal_with_the_wrong_secret_is_denied() {
    let enc = Vault::seal(&[7u8; 16], "master", b"data").unwrap().unwrap();
    match Vault::unseal(&enc, "wrong") {
        Some(Err(AppError::PermissionDenied(m))) => assert_eq!(m, "aead::Error"),
        _ => panic!("expected permission denied"),
    }
}

#[test]
fn unseal_rejects_fields_that_are_not_base64() {
    let enc = Vault::seal(&[7u8; 16], "master", b"data").unwrap().unwrap();
    let bad_salt = EncryptedVault { salt: "%%".to_string(), nonce: enc.nonce.clone(), ciphertext: enc.ciphertext.clone() };
    assert!(matches!(Vault::unseal(&bad_salt, "master"), Some(Err(AppError::DeserializeError(_)))));
    let bad_nonce = EncryptedVault { salt: enc.salt.clone(), nonce: "@".to_string(), ciphertext: enc.ciphertext.clone() };
    assert!(matches!(Vault::unseal(&bad_nonce, "master"), Some(Err(AppError::DeserializeError(_)))));
    let bad_text = EncryptedVault { salt: enc.salt.clone(), nonce: enc.nonce.clone(), ciphertext: "x".to_string() };
    assert!(matches!(Vault::unseal(&bad_text, "master"), Some(Err(AppError::DeserializeError(_)))));
}

fn base64_decode(text: &str) -> Vec<u8> {
    base64::engine::general_purpose::STANDARD.decode(text).unwrap()
}

#[test]
fn unseal_refuses_a_nonce_of_the_wrong_length() {
    let enc = Vault::seal(&[7u8; 16], "master", b"data").unwrap().unwrap();
    let short = EncryptedVault { salt: enc.salt.clone(), nonce: "AAAA".to_string(), ciphertext: enc.ciphertext.clone() };
    assert!(Vault::unseal(&short, "master").is_none());
    let nonce = [0u8; 12];
    let key_salt = [7u8; 16];
    let sealed = Vault::seal_with_nonce(&key_salt, "master", b"data", &nonce).unwrap();
    assert!(sealed.nonce.len() == 16);
    let ct = base64_decode(&sealed.ciphertext);
    assert_eq!(Vault::open_fields(&key_salt, &nonce, &ct, "master").unwrap(), b"data".to_vec());
    assert!(matches!(Vault::open_fields(&[8u8; 16], &nonce, &ct, "master"), Err(AppError::PermissionDenied(_))));
}

#[test]
fn vault_default_and_clone() {
    let mut v = Vault::default();
    assert_eq!(v.salt, "");
    assert!(v.add_entry("a".to_string(), "b".to_string(), "c".to_string()));
    let c = v.clone();
    assert_eq!(c.entries.len(), 1);
    assert_eq!(c.entries[0].name, "a");
}

#[test]
fn cli_commands_hold_their_arguments() {
    let cli = Cli { cmd: Cmd::Add { service: "mail".to_string(), password: "pw".to_string() } };
    match cli.cmd {
        Cmd::Add { service, password } => {
            assert_eq!(service, "mail");
            assert_eq!(password, "pw");
        }
        _ => panic!("expected add"),
    }
    assert!(matches!(Cmd::Get { service: "x".to_string() }, Cmd::Get { .. }));
    assert!(matches!(Cmd::Init, Cmd::Init));
    assert!(matches!(Cmd::List, Cmd::List));
}
