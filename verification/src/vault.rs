use vstd::prelude::*;
use vstd::utf8::encode_utf8;
use crate::entry::Entry;
use crate::error::AppError;
use crate::parser::str_eq;
use crate::search::{first_of, lemma_first_of_is, lemma_first_of_iff};
use crate::encoding::{base64_decoded, base64_encoded, lemma_base64_len, lemma_base64_decodes};
use crate::crypto::{
    b64_decode, b64_encode, json_error_from_decode, pbkdf2_sha256,
    pbkdf2_key, aes256gcm_seal, aes256gcm_open, aes256gcm_encrypt, aes256gcm_decrypt,
    aes_gcm_max_plaintext, aead_error_text, fill_random,
};

verus! {

/// The rounds of PBKDF2 that turn a secret into a vault key.
pub const KDF_ROUNDS: u32 = 100_000;

/// The entries of a vault, in memory, with the base64 salt its key is derived with.
#[derive(Debug)]
pub struct Vault {
    pub salt: String,
    pub entries: Vec<Entry>,
}

/// A vault as it lies on disk: salt, nonce and ciphertext, each in base64.
#[derive(Debug)]
pub struct EncryptedVault {
    pub salt: String,
    pub nonce: String,
    pub ciphertext: String,
}

/// The three texts of an encrypted vault.
pub struct EncryptedView {
    pub salt: Seq<char>,
    pub nonce: Seq<char>,
    pub ciphertext: Seq<char>,
}

impl View for EncryptedVault {
    type V = EncryptedView;

    open spec fn view(&self) -> EncryptedView {
        EncryptedView { salt: self.salt@, nonce: self.nonce@, ciphertext: self.ciphertext@ }
    }
}

/// How opening an encrypted vault can fail.
pub enum VaultFailure {
    /// A field is not valid base64.
    Deserialize,
    /// The key does not authenticate the ciphertext.
    PermissionDenied,
    /// The nonce does not have the cipher's length.
    NonceLength,
}

/// The key a vault secret and salt give.
pub open spec fn vault_key(secret: Seq<char>, salt: Seq<u8>) -> Seq<u8> {
    pbkdf2_sha256(encode_utf8(secret), salt, KDF_ROUNDS)
}

/// What opening `enc` with `secret` gives: the plaintext, or why it fails.
pub open spec fn unsealed(enc: EncryptedView, secret: Seq<char>) -> Result<Seq<u8>, VaultFailure> {
    match (base64_decoded(enc.salt), base64_decoded(enc.nonce), base64_decoded(enc.ciphertext)) {
        (Some(salt), Some(nonce), Some(ct)) => if nonce.len() != 12 {
            Err(VaultFailure::NonceLength)
        } else {
            match aes256gcm_open(vault_key(secret, salt), nonce, ct) {
                Some(p) => Ok(p),
                None => Err(VaultFailure::PermissionDenied),
            }
        },
        _ => Err(VaultFailure::Deserialize),
    }
}

/// What sealing `plaintext` under `secret` with `salt` and `nonce` writes down.
pub open spec fn sealed(salt: Seq<u8>, secret: Seq<char>, plaintext: Seq<u8>, nonce: Seq<u8>) -> EncryptedView {
    EncryptedView {
        salt: base64_encoded(salt),
        nonce: base64_encoded(nonce),
        ciphertext: base64_encoded(aes256gcm_seal(vault_key(secret, salt), nonce, plaintext)),
    }
}

/// `e` is the error the library gives for failure `f`.
pub open spec fn fails_with(e: AppError, f: VaultFailure) -> bool {
    match (e, f) {
        (AppError::DeserializeError(_), VaultFailure::Deserialize) => true,
        (AppError::PermissionDenied(m), VaultFailure::PermissionDenied) => m@ == "aead::Error"@,
        _ => false,
    }
}

/// The error sealing gives when the cipher refuses the plaintext.
pub open spec fn is_denied(e: AppError) -> bool {
    e matches AppError::PermissionDenied(m) && m@ == "aead::Error"@
}

/// The names of the entries of `es`, in order.
pub open spec fn entry_names(es: Seq<Entry>) -> Seq<Seq<char>> {
    es.map_values(|e: Entry| e.name@)
}

/// The first position of `es` holding an entry called `name`, if any.
pub open spec fn first_entry(es: Seq<Entry>, name: Seq<char>) -> Option<int> {
    first_of(entry_names(es), name)
}

impl Default for Vault {
    fn default() -> (v: Vault)
        ensures
            v.salt@ == Seq::<char>::empty(),
            v.entries@ == Seq::<Entry>::empty(),
    {
        Vault { salt: String::new(), entries: Vec::new() }
    }
}

impl Clone for Vault {
    fn clone(&self) -> (v: Self)
        ensures
            v.salt == self.salt,
            v.entries@ == self.entries@,
    {
        let entries = self.entries.clone();
        assert(entries@ =~= self.entries@);
        Vault { salt: self.salt.clone(), entries }
    }
}

impl Vault {
    /// Sixteen random bytes, or `None` when the random source fails.
    fn generate_salt() -> (r: Option<Vec<u8>>)
        ensures
            r matches Some(s) ==> s@.len() == 16,
    {
        let mut buf = vec![0u8; 16];
        match fill_random(&mut buf) {
            Ok(()) => Some(buf),
            Err(_) => None,
        }
    }

    /// The 256-bit AES key derived from `secret` and `salt` with PBKDF2.
    fn derive_key(secret: &str, salt: &[u8]) -> (k: Vec<u8>)
        ensures
            k@ == vault_key(secret@, salt@),
            k@ == pbkdf2_sha256(encode_utf8(secret@), salt@, 100_000),
            k@.len() == 32,
    {
        pbkdf2_key(secret.as_bytes(), salt, KDF_ROUNDS)
    }

    /// Twelve random bytes, or `None` when the random source fails.
    fn generate_nonce() -> (r: Option<Vec<u8>>)
        ensures
            r matches Some(n) ==> n@.len() == 12,
    {
        let mut buf = vec![0u8; 12];
        match fill_random(&mut buf) {
            Ok(()) => Some(buf),
            Err(_) => None,
        }
    }

    /// An empty vault.
    pub fn new() -> (v: Vault)
        ensures
            v.salt@ == Seq::<char>::empty(),
            v.entries@ == Seq::<Entry>::empty(),
    {
        Vault { salt: String::new(), entries: Vec::new() }
    }

    /// Adds a new entry, made now, and tells whether it did: no entry is added when the
    /// clock reads earlier than the Unix epoch.
    pub fn add_entry(&mut self, name: String, pass: String, desc: String) -> (added: bool)
        ensures
            final(self).salt == old(self).salt,
            !added ==> final(self).entries@ == old(self).entries@,
            added ==> {
                &&& final(self).entries@.len() == old(self).entries@.len() + 1
                &&& final(self).entries@.drop_last() == old(self).entries@
                &&& final(self).entries@.last().name == name
                &&& final(self).entries@.last().pass == pass
                &&& final(self).entries@.last().desc == desc
            },
    {
        match Entry::new(name, pass, desc) {
            Some(e) => {
                self.entries.push(e);
                assert(final(self).entries@.drop_last() =~= old(self).entries@);
                true
            },
            None => false,
        }
    }

    /// The first entry called `name`, if any.
    pub fn get_entry(&self, name: &str) -> (r: Option<&Entry>)
        ensures
            match first_entry(self.entries@, name@) {
                Some(i) => r == Some(&self.entries@[i]),
                None => r is None,
            },
            r is None <==> forall|i: int| 0 <= i < self.entries@.len() ==> #[trigger] self.entries@[i].name@ != name@,
    {
        let mut i: usize = 0;
        while i < self.entries.len()
            invariant
                i <= self.entries@.len(),
                forall|j: int| 0 <= j < i ==> #[trigger] self.entries@[j].name@ != name@,
            decreases self.entries@.len() - i,
        {
            if str_eq(self.entries[i].name.as_str(), name) {
                proof {
                    let names = entry_names(self.entries@);
                    assert forall|j: int| 0 <= j < i implies #[trigger] names[j] != name@ by {
                        assert(self.entries@[j].name@ != name@);
                    }
                    lemma_first_of_is(names, name@, i as int);
                }
                return Some(&self.entries[i]);
            }
            i = i + 1;
        }
        proof {
            let names = entry_names(self.entries@);
            lemma_first_of_iff(names, name@);
            if first_entry(self.entries@, name@) is Some {
                let k = choose|k: int| 0 <= k < names.len() && #[trigger] names[k] == name@;
                assert(self.entries@[k].name@ == name@);
            }
        }
        None
    }

    /// A copy of all entries.
    pub fn get_all(&self) -> (r: Vec<Entry>)
        ensures
            r@ == self.entries@,
    {
        let r = self.entries.clone();
        assert(r@ =~= self.entries@);
        r
    }

    /// The salt bytes the vault key is derived with. A vault without a salt gets sixteen
    /// random bytes, kept in base64 in `salt`; otherwise the kept salt is decoded. `None`
    /// when a salt had to be made and the random source failed; the vault is then unchanged.
    pub fn prepare_salt(&mut self) -> (r: Option<Result<Vec<u8>, AppError>>)
        ensures
            final(self).entries@ == old(self).entries@,
            r is None ==> old(self).salt@.len() == 0 && final(self).salt == old(self).salt,
            old(self).salt@.len() == 0 ==> (r matches Some(x) ==> x matches Ok(b) && b@.len() == 16
                && final(self).salt@ == base64_encoded(b@) && base64_decoded(final(self).salt@) == Some(b@)
                && final(self).salt@.len() == 24),
            r matches Some(Ok(b)) ==> base64_encoded(b@) == final(self).salt@,
            old(self).salt@.len() != 0 ==> final(self).salt == old(self).salt && match base64_decoded(
                old(self).salt@,
            ) {
                Some(b) => r matches Some(Ok(x)) && x@ == b,
                None => r matches Some(Err(AppError::DeserializeError(_))),
            },
    {
        if self.salt.as_str().is_empty() {
            match Vault::generate_salt() {
                Some(salt_bytes) => {
                    self.salt = b64_encode(salt_bytes.as_slice());
                    proof {
                        lemma_base64_len(salt_bytes@);
                        lemma_base64_decodes(salt_bytes@, self.salt@);
                    }
                    Some(Ok(salt_bytes))
                },
                None => None,
            }
        } else {
            Some(Vault::decode_field(self.salt.as_str()))
        }
    }

    /// Decodes one base64 field of an encrypted vault.
    fn decode_field(text: &str) -> (r: Result<Vec<u8>, AppError>)
        ensures
            match base64_decoded(text@) {
                Some(b) => r matches Ok(x) && x@ == b && base64_encoded(b) == text@,
                None => r matches Err(AppError::DeserializeError(_)),
            },
    {
        match b64_decode(text) {
            Ok(b) => {
                proof {
                    lemma_base64_decodes(b@, text@);
                }
                Ok(b)
            },
            Err(e) => Err(AppError::DeserializeError(json_error_from_decode(e))),
        }
    }

    /// Encrypts `plaintext` under the key derived from `secret` and `salt`, with `nonce`,
    /// and writes salt, nonce and ciphertext down in base64.
    pub fn seal_with_nonce(salt: &[u8], secret: &str, plaintext: &[u8], nonce: &[u8]) -> (r: Result<
        EncryptedVault,
        AppError,
    >)
        requires
            nonce@.len() == 12,
            salt@.len() <= usize::MAX / 2,
            plaintext@.len() + 16 <= usize::MAX / 2,
        ensures
            r is Ok <==> plaintext@.len() <= aes_gcm_max_plaintext(),
            match r {
                Ok(enc) => enc@ == sealed(salt@, secret@, plaintext@, nonce@) && unsealed(enc@, secret@)
                    == Ok::<Seq<u8>, VaultFailure>(plaintext@),
                Err(e) => is_denied(e),
            },
            r matches Ok(enc) ==> enc@.ciphertext == base64_encoded(
                aes256gcm_seal(pbkdf2_sha256(encode_utf8(secret@), salt@, 100_000), nonce@, plaintext@),
            ),
    {
        let key = Vault::derive_key(secret, salt);
        let ctext = match aes256gcm_encrypt(key.as_slice(), nonce, plaintext) {
            Ok(c) => c,
            Err(e) => {
                return Err(AppError::PermissionDenied(aead_error_text(&e)));
            },
        };
        let enc = EncryptedVault {
            salt: b64_encode(salt),
            nonce: b64_encode(nonce),
            ciphertext: b64_encode(ctext.as_slice()),
        };
        proof {
            lemma_base64_decodes(salt@, enc.salt@);
            lemma_base64_decodes(nonce@, enc.nonce@);
            lemma_base64_decodes(ctext@, enc.ciphertext@);
        }
        Ok(enc)
    }

    /// Encrypts `plaintext` under the key derived from `secret` and `salt`, with a fresh
    /// random nonce, and writes salt, nonce and ciphertext down in base64. `None` when the
    /// random source fails.
    pub fn seal(salt: &[u8], secret: &str, plaintext: &[u8]) -> (r: Option<Result<EncryptedVault, AppError>>)
        requires
            salt@.len() <= usize::MAX / 2,
            plaintext@.len() + 16 <= usize::MAX / 2,
        ensures
            r matches Some(x) ==> (x is Ok <==> plaintext@.len() <= aes_gcm_max_plaintext()),
            r matches Some(x) ==> match x {
                Ok(enc) => (exists|n: Seq<u8>|
                    n.len() == 12 && enc@ == #[trigger] sealed(salt@, secret@, plaintext@, n)) && unsealed(
                    enc@,
                    secret@,
                ) == Ok::<Seq<u8>, VaultFailure>(plaintext@),
                Err(e) => is_denied(e),
            },
    {
        match Vault::generate_nonce() {
            Some(nonce_bytes) => Some(Vault::seal_with_nonce(salt, secret, plaintext, nonce_bytes.as_slice())),
            None => None,
        }
    }

    /// The three fields of an encrypted vault, decoded in turn; the first that is not valid
    /// base64 gives the error.
    fn decode_fields(enc: &EncryptedVault) -> (r: Result<(Vec<u8>, Vec<u8>, Vec<u8>), AppError>)
        ensures
            match (base64_decoded(enc.salt@), base64_decoded(enc.nonce@), base64_decoded(enc.ciphertext@)) {
                (Some(s), Some(n), Some(c)) => r matches Ok((x, y, z)) && x@ == s && y@ == n && z@ == c,
                _ => r matches Err(AppError::DeserializeError(_)),
            },
    {
        let salt = match Vault::decode_field(enc.salt.as_str()) {
            Ok(b) => b,
            Err(e) => {
                return Err(e);
            },
        };
        let nonce = match Vault::decode_field(enc.nonce.as_str()) {
            Ok(b) => b,
            Err(e) => {
                return Err(e);
            },
        };
        let ctext = match Vault::decode_field(enc.ciphertext.as_str()) {
            Ok(b) => b,
            Err(e) => {
                return Err(e);
            },
        };
        Ok((salt, nonce, ctext))
    }

    /// Decrypts `ciphertext` with `nonce` and the key derived from `secret` and `salt`.
    pub fn open_fields(salt: &[u8], nonce: &[u8], ciphertext: &[u8], secret: &str) -> (r: Result<Vec<u8>, AppError>)
        requires
            nonce@.len() == 12,
        ensures
            match aes256gcm_open(vault_key(secret@, salt@), nonce@, ciphertext@) {
                Some(p) => r matches Ok(x) && x@ == p,
                None => r matches Err(e) && is_denied(e),
            },
            match aes256gcm_open(pbkdf2_sha256(encode_utf8(secret@), salt@, 100_000), nonce@, ciphertext@) {
                Some(p) => r matches Ok(x) && x@ == p,
                None => r matches Err(e) && is_denied(e),
            },
    {
        let key = Vault::derive_key(secret, salt);
        match aes256gcm_decrypt(key.as_slice(), nonce, ciphertext) {
            Ok(p) => Ok(p),
            Err(e) => Err(AppError::PermissionDenied(aead_error_text(&e))),
        }
    }

    /// Decrypts an encrypted vault with the key derived from `secret` and its salt, or gives
    /// `None` when its three fields decode but the nonce does not have the cipher's twelve
    /// bytes.
    pub fn unseal(enc: &EncryptedVault, secret: &str) -> (r: Option<Result<Vec<u8>, AppError>>)
        ensures
            r is None <==> unsealed(enc@, secret@) matches Err(VaultFailure::NonceLength),
            r matches Some(x) ==> (match x {
                Ok(p) => unsealed(enc@, secret@) == Ok::<Seq<u8>, VaultFailure>(p@),
                Err(e) => unsealed(enc@, secret@) matches Err(f) && fails_with(e, f),
            }),
    {
        match Vault::decode_fields(enc) {
            Ok((salt, nonce, ctext)) => {
                if nonce.len() != 12 {
                    None
                } else {
                    Some(Vault::open_fields(salt.as_slice(), nonce.as_slice(), ctext.as_slice(), secret))
                }
            },
            Err(e) => Some(Err(e)),
        }
    }
}

} // verus!
