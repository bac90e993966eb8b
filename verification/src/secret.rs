use vstd::prelude::*;

verus! {

/// What a secret holds, as plain sequences of characters.
pub struct SecretView {
    pub hash: Seq<char>,
    pub name: Seq<char>,
    pub username: Seq<char>,
    pub password: Seq<char>,
}

/// The text a secret shows: `name=<name>, username=<username>, password=<password>`.
pub open spec fn secret_text(s: SecretView) -> Seq<char> {
    "name="@ + s.name + ", username="@ + s.username + ", password="@ + s.password
}

/// The views of a sequence of secrets.
pub open spec fn secret_views(v: Seq<Secret>) -> Seq<SecretView> {
    v.map_values(|s: Secret| s@)
}

/// A stored credential, identified by its hash.
#[derive(Debug)]
pub struct Secret {
    hash: String,
    name: String,
    username: String,
    password: String,
}

impl View for Secret {
    type V = SecretView;

    closed spec fn view(&self) -> SecretView {
        SecretView {
            hash: self.hash@,
            name: self.name@,
            username: self.username@,
            password: self.password@,
        }
    }
}

impl Default for Secret {
    fn default() -> (s: Secret)
        ensures
            s@ == (SecretView {
                hash: Seq::empty(),
                name: Seq::empty(),
                username: Seq::empty(),
                password: Seq::empty(),
            }),
    {
        Secret { hash: String::new(), name: String::new(), username: String::new(), password: String::new() }
    }
}

impl Secret {
    pub fn new(hash: String, name: String, username: String, password: String) -> (s: Secret)
        ensures
            s@ == (SecretView { hash: hash@, name: name@, username: username@, password: password@ }),
    {
        Secret { hash, name, password, username }
    }

    pub fn get_hash(&self) -> (h: String)
        ensures
            h@ == self@.hash,
    {
        self.hash.clone()
    }

    pub fn get_name(&self) -> (n: String)
        ensures
            n@ == self@.name,
    {
        self.name.clone()
    }

    pub fn get_username(&self) -> (u: String)
        ensures
            u@ == self@.username,
    {
        self.username.clone()
    }

    pub fn get_password(&self) -> (p: String)
        ensures
            p@ == self@.password,
    {
        self.password.clone()
    }

    /// The text the secret shows when printed.
    pub fn to_display(&self) -> (text: String)
        ensures
            text@ == secret_text(self@),
    {
        let mut text = String::from_str("name=");
        text.append(self.name.as_str());
        text.append(", username=");
        text.append(self.username.as_str());
        text.append(", password=");
        text.append(self.password.as_str());
        text
    }
}

} // verus!
