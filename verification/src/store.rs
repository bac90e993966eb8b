use vstd::prelude::*;
use vstd::utf8::encode_utf8;
use crate::secret::{Secret, SecretView, secret_text, secret_views};
use crate::hashing::{sha256, sha256_digest, hex_lower, to_hex_lower, append_bytes, lemma_hex_lower_len, is_lower_hex};
use crate::parser::str_eq;
use crate::search::{first_of, lemma_first_of_is, lemma_first_of_iff};
use crate::clock::{time_since_epoch, rfc3339_utc, rfc3339_utc_text, ends_in_utc_offset};

verus! {

/// No two secrets of `s` share a hash.
pub open spec fn unique_hashes(s: Seq<SecretView>) -> bool {
    forall|i: int, j: int|
        0 <= i < s.len() && 0 <= j < s.len() && i != j ==> #[trigger] s[i].hash != #[trigger] s[j].hash
}

/// Some secret of `s` has hash `h`.
pub open spec fn holds_hash(s: Seq<SecretView>, h: Seq<char>) -> bool {
    exists|i: int| 0 <= i < s.len() && #[trigger] s[i].hash == h
}

/// The secrets of `s` keyed by their hashes.
pub open spec fn by_hash(s: Seq<SecretView>) -> Map<Seq<char>, SecretView> {
    Map::new(
        |h: Seq<char>| holds_hash(s, h),
        |h: Seq<char>| s[choose|i: int| 0 <= i < s.len() && #[trigger] s[i].hash == h],
    )
}

/// `s` after storing `v` under its hash: it takes the place of the secret with that hash,
/// or comes last when there is none.
pub open spec fn inserted(s: Seq<SecretView>, v: SecretView) -> Seq<SecretView> {
    if holds_hash(s, v.hash) {
        s.update(choose|i: int| 0 <= i < s.len() && #[trigger] s[i].hash == v.hash, v)
    } else {
        s.push(v)
    }
}

/// `s` after storing each secret of `t` in turn.
pub open spec fn inserted_all(s: Seq<SecretView>, t: Seq<SecretView>) -> Seq<SecretView>
    decreases t.len(),
{
    if t.len() == 0 {
        s
    } else {
        inserted(inserted_all(s, t.drop_last()), t.last())
    }
}

/// Some secret of `s` is called `name`.
pub open spec fn has_name(s: Seq<SecretView>, name: Seq<char>) -> bool {
    exists|i: int| 0 <= i < s.len() && #[trigger] s[i].name == name
}

/// The names of the secrets of `s`, in order.
pub open spec fn secret_names(s: Seq<SecretView>) -> Seq<Seq<char>> {
    s.map_values(|v: SecretView| v.name)
}

/// The first position of `s` holding a secret called `name`, if any.
pub open spec fn first_named(s: Seq<SecretView>, name: Seq<char>) -> Option<int> {
    first_of(secret_names(s), name)
}

/// The hash a secret gets: the lowercase hex SHA-256 digest of the UTF-8 bytes of its
/// name, text, time stamp and user, in that order.
pub open spec fn secret_hash(name: Seq<char>, user: Seq<char>, text: Seq<char>, now: Seq<char>) -> Seq<char> {
    hex_lower(sha256(encode_utf8(name) + encode_utf8(text) + encode_utf8(now) + encode_utf8(user)))
}

/// The secret stored for `name`, `user` and `text` at time `now`.
pub open spec fn new_secret(name: Seq<char>, user: Seq<char>, text: Seq<char>, now: Seq<char>) -> SecretView {
    SecretView { hash: secret_hash(name, user, text, now), name: name, username: user, password: text }
}

/// The text a store shows: each secret's text on a line of its own.
pub open spec fn store_text(s: Seq<SecretView>) -> Seq<char>
    decreases s.len(),
{
    if s.len() == 0 {
        seq![]
    } else {
        store_text(s.drop_last()) + secret_text(s.last()) + "\n"@
    }
}

pub proof fn lemma_by_hash_at(s: Seq<SecretView>, i: int)
    requires
        unique_hashes(s),
        0 <= i < s.len(),
    ensures
        by_hash(s).contains_key(s[i].hash),
        by_hash(s)[s[i].hash] == s[i],
{
    let h = s[i].hash;
    assert(holds_hash(s, h));
    let j = choose|j: int| 0 <= j < s.len() && #[trigger] s[j].hash == h;
    assert(s[j].hash == h);
    if j != i {
        assert(s[i].hash != s[j].hash);
    }
}

pub proof fn lemma_inserted(s: Seq<SecretView>, v: SecretView)
    requires
        unique_hashes(s),
    ensures
        unique_hashes(inserted(s, v)),
        by_hash(inserted(s, v)) =~= by_hash(s).insert(v.hash, v),
        inserted(s, v).len() == if holds_hash(s, v.hash) { s.len() } else { s.len() + 1 },
        inserted(s, v).contains(v),
{
    let t = inserted(s, v);
    let k: int = if holds_hash(s, v.hash) {
        choose|i: int| 0 <= i < s.len() && #[trigger] s[i].hash == v.hash
    } else {
        s.len() as int
    };
    assert(t[k] == v);
    assert forall|i: int| 0 <= i < t.len() && i != k implies #[trigger] t[i] == s[i] && s[i].hash
        != v.hash by {
        if holds_hash(s, v.hash) {
            assert(s[k].hash == v.hash);
            assert(s[i].hash != s[k].hash);
        } else {
            assert(!(0 <= i < s.len() && s[i].hash == v.hash));
        }
    }
    assert(unique_hashes(t)) by {
        assert forall|i: int, j: int|
            0 <= i < t.len() && 0 <= j < t.len() && i != j implies #[trigger] t[i].hash
            != #[trigger] t[j].hash by {
            if i != k && j != k {
                assert(t[i] == s[i] && t[j] == s[j]);
            } else if i != k {
                assert(t[i] == s[i]);
            } else {
                assert(t[j] == s[j]);
            }
        }
    }
    assert forall|h: Seq<char>| #[trigger]
        by_hash(t).contains_key(h) == by_hash(s).insert(v.hash, v).contains_key(h) by {
        if h == v.hash {
            assert(t[k].hash == h);
        } else if holds_hash(s, h) {
            let i = choose|i: int| 0 <= i < s.len() && #[trigger] s[i].hash == h;
            assert(i != k) by {
                if holds_hash(s, v.hash) {
                    assert(s[k].hash == v.hash);
                }
            }
            assert(t[i] == s[i]);
        } else if holds_hash(t, h) {
            let i = choose|i: int| 0 <= i < t.len() && #[trigger] t[i].hash == h;
            assert(t[i] == s[i]);
        }
    }
    assert forall|h: Seq<char>| #[trigger] by_hash(t).contains_key(h) implies by_hash(t)[h]
        == by_hash(s).insert(v.hash, v)[h] by {
        let i = choose|i: int| 0 <= i < t.len() && #[trigger] t[i].hash == h;
        lemma_by_hash_at(t, i);
        if i == k {
        } else {
            assert(t[i] == s[i]);
            lemma_by_hash_at(s, i);
        }
    }
}

pub proof fn lemma_removed(s: Seq<SecretView>, k: int)
    requires
        unique_hashes(s),
        0 <= k < s.len(),
    ensures
        unique_hashes(s.remove(k)),
        by_hash(s.remove(k)) =~= by_hash(s).remove(s[k].hash),
{
    let t = s.remove(k);
    assert forall|i: int| 0 <= i < t.len() implies #[trigger] t[i] == s[if i < k { i } else { i + 1 }] by {}
    assert(unique_hashes(t)) by {
        assert forall|i: int, j: int|
            0 <= i < t.len() && 0 <= j < t.len() && i != j implies #[trigger] t[i].hash
            != #[trigger] t[j].hash by {
            let a = if i < k { i } else { i + 1 };
            let b = if j < k { j } else { j + 1 };
            assert(t[i] == s[a] && t[j] == s[b]);
        }
    }
    assert forall|h: Seq<char>| #[trigger]
        by_hash(t).contains_key(h) == by_hash(s).remove(s[k].hash).contains_key(h) by {
        if holds_hash(t, h) {
            let i = choose|i: int| 0 <= i < t.len() && #[trigger] t[i].hash == h;
            let a = if i < k { i } else { i + 1 };
            assert(t[i] == s[a]);
            assert(s[a].hash != s[k].hash);
        }
        if holds_hash(s, h) && h != s[k].hash {
            let a = choose|a: int| 0 <= a < s.len() && #[trigger] s[a].hash == h;
            let i = if a < k { a } else { a - 1 };
            assert(t[i] == s[a]);
        }
    }
    assert forall|h: Seq<char>| #[trigger] by_hash(t).contains_key(h) implies by_hash(t)[h]
        == by_hash(s).remove(s[k].hash)[h] by {
        let i = choose|i: int| 0 <= i < t.len() && #[trigger] t[i].hash == h;
        let a = if i < k { i } else { i + 1 };
        assert(t[i] == s[a]);
        lemma_by_hash_at(t, i);
        lemma_by_hash_at(s, a);
    }
}

/// A first position holding `name` exists exactly when some secret is called `name`.
pub proof fn lemma_first_named_iff(s: Seq<SecretView>, name: Seq<char>)
    ensures
        first_named(s, name) is Some <==> has_name(s, name),
        first_named(s, name) matches Some(i) ==> 0 <= i < s.len() && s[i].name == name,
{
    let names = secret_names(s);
    lemma_first_of_iff(names, name);
    if has_name(s, name) {
        let k = choose|k: int| 0 <= k < s.len() && #[trigger] s[k].name == name;
        assert(names[k] == name);
    }
    if first_named(s, name) is Some {
        let k = choose|k: int| 0 <= k < names.len() && #[trigger] names[k] == name;
        assert(s[k].name == name);
    }
}

/// Stores `secret` under its hash, in the place of the secret that had that hash, if any.
fn insert_secret(data: &mut Vec<Secret>, secret: Secret)
    requires
        unique_hashes(secret_views(old(data)@)),
    ensures
        unique_hashes(secret_views(final(data)@)),
        secret_views(final(data)@) == inserted(secret_views(old(data)@), secret@),
        by_hash(secret_views(final(data)@)) == by_hash(secret_views(old(data)@)).insert(secret@.hash, secret@),
{
    let ghost s = secret_views(data@);
    let hash = secret.get_hash();
    proof {
        lemma_inserted(s, secret@);
    }
    let mut i: usize = 0;
    while i < data.len()
        invariant
            data@ == old(data)@,
            s == secret_views(data@),
            unique_hashes(s),
            hash@ == secret@.hash,
            i <= data@.len(),
            s.len() == data@.len(),
            forall|j: int| 0 <= j < i ==> #[trigger] s[j].hash != hash@,
        decreases data@.len() - i,
    {
        let h = data[i].get_hash();
        assert(s[i as int] == data@[i as int]@);
        if h == hash {
            proof {
                assert(holds_hash(s, hash@));
                let c = choose|c: int| 0 <= c < s.len() && #[trigger] s[c].hash == hash@;
                if c != i {
                    assert(s[c].hash != s[i as int].hash);
                }
            }
            data[i] = secret;
            assert(secret_views(data@) =~= inserted(s, secret@));
            proof {
                lemma_inserted(s, secret@);
            }
            return;
        }
        i = i + 1;
    }
    assert(!holds_hash(s, hash@));
    data.push(secret);
    assert(secret_views(data@) =~= s.push(secret@));
}

/// Removes the secret stored under `hash`.
fn remove_secret_with_hash(data: &mut Vec<Secret>, hash: &String)
    requires
        unique_hashes(secret_views(old(data)@)),
        holds_hash(secret_views(old(data)@), hash@),
    ensures
        unique_hashes(secret_views(final(data)@)),
        forall|k: int|
            0 <= k < old(data)@.len() && #[trigger] secret_views(old(data)@)[k].hash == hash@
                ==> secret_views(final(data)@) == secret_views(old(data)@).remove(k),
        by_hash(secret_views(final(data)@)) == by_hash(secret_views(old(data)@)).remove(hash@),
{
    let ghost s = secret_views(data@);
    let mut i: usize = 0;
    while i < data.len()
        invariant
            data@ == old(data)@,
            s == secret_views(data@),
            unique_hashes(s),
            holds_hash(s, hash@),
            i <= data@.len(),
            s.len() == data@.len(),
            forall|j: int| 0 <= j < i ==> #[trigger] s[j].hash != hash@,
        decreases data@.len() - i,
    {
        let h = data[i].get_hash();
        assert(s[i as int] == data@[i as int]@);
        if h == *hash {
            data.remove(i);
            proof {
                assert(secret_views(data@) =~= s.remove(i as int));
                lemma_removed(s, i as int);
                assert forall|k: int| 0 <= k < s.len() && #[trigger] s[k].hash == hash@ implies k
                    == i by {
                    if k != i {
                        assert(s[k].hash != s[i as int].hash);
                    }
                }
            }
            return;
        }
        i = i + 1;
    }
    proof {
        let c = choose|c: int| 0 <= c < s.len() && #[trigger] s[c].hash == hash@;
        assert(s[c].hash != hash@);
    }
}

/// The secrets of the prompt, each stored under its hash, and the file they are kept in.
#[derive(Debug)]
pub struct Store {
    data: Vec<Secret>,
    file: String,
}

impl Default for Store {
    fn default() -> (s: Store)
        ensures
            unique_hashes(s.secrets()),
            s.secrets() == Seq::<SecretView>::empty(),
            s.path() == Seq::<char>::empty(),
    {
        let s = Store { data: Vec::new(), file: String::new() };
        assert(s.secrets() =~= Seq::<SecretView>::empty());
        s
    }
}

impl Store {
    /// The secrets, in the order the store keeps them.
    pub closed spec fn secrets(&self) -> Seq<SecretView> {
        secret_views(self.data@)
    }

    /// The file the store is kept in.
    pub closed spec fn path(&self) -> Seq<char> {
        self.file@
    }

    /// The store keeps each hash at most once.
    #[verifier::type_invariant]
    spec fn wf(&self) -> bool {
        unique_hashes(self.secrets())
    }

    /// The secrets keyed by hash.
    pub open spec fn contents(&self) -> Map<Seq<char>, SecretView> {
        by_hash(self.secrets())
    }

    /// A store kept in `file` that holds `secrets`, each stored under its hash in turn (a
    /// later secret takes the place of an earlier one with the same hash).
    pub fn from_secrets(file: String, secrets: Vec<Secret>) -> (s: Store)
        ensures
            unique_hashes(s.secrets()),
            s.path() == file@,
            s.secrets() == inserted_all(Seq::empty(), secret_views(secrets@)),
    {
        let ghost all = secret_views(secrets@);
        let mut data: Vec<Secret> = Vec::new();
        let mut rest = secrets;
        assert(secret_views(data@) =~= Seq::<SecretView>::empty());
        assert(all.take(0) =~= Seq::<SecretView>::empty());
        while rest.len() > 0
            invariant
                rest@.len() <= all.len(),
                secret_views(rest@) =~= all.skip(all.len() - rest@.len()),
                unique_hashes(secret_views(data@)),
                secret_views(data@) == inserted_all(Seq::empty(), all.take(all.len() - rest@.len())),
            decreases rest@.len(),
        {
            let ghost k = all.len() - rest@.len();
            let ghost before = rest@;
            let next = rest.remove(0);
            assert(secret_views(before)[0] == all.skip(k)[0]);
            assert(next@ == all[k]);
            assert(rest@ =~= before.subrange(1, before.len() as int));
            assert forall|j: int| 0 <= j < rest@.len() implies secret_views(rest@)[j] == all.skip(k + 1)[j] by {
                assert(rest@[j] == before[j + 1]);
                assert(secret_views(before)[j + 1] == all.skip(k)[j + 1]);
            }
            assert(secret_views(rest@) =~= all.skip(k + 1));
            insert_secret(&mut data, next);
            assert(all.take(k + 1).drop_last() =~= all.take(k));
        }
        assert(all.take(all.len() as int) =~= all);
        Store { data, file }
    }

    /// The first secret called `name`, if any.
    pub fn get_secret(&self, name: &str) -> (r: Option<&Secret>)
        ensures
            unique_hashes(self.secrets()),
            match first_named(self.secrets(), name@) {
                Some(i) => r matches Some(x) && x@ == self.secrets()[i],
                None => r is None,
            },
    {
        proof {
            use_type_invariant(self);
        }
        let mut i: usize = 0;
        while i < self.data.len()
            invariant
                i <= self.data@.len(),
                self.secrets().len() == self.data@.len(),
                forall|j: int| 0 <= j < i ==> #[trigger] self.secrets()[j].name != name@,
                self.wf(),
            decreases self.data@.len() - i,
        {
            let n = self.data[i].get_name();
            if str_eq(n.as_str(), name) {
                proof {
                    let names = secret_names(self.secrets());
                    assert(self.secrets()[i as int] == self.data@[i as int]@);
                    assert forall|j: int| 0 <= j < i implies #[trigger] names[j] != name@ by {
                        assert(self.secrets()[j].name != name@);
                    }
                    lemma_first_of_is(names, name@, i as int);
                }
                return Some(&self.data[i]);
            }
            assert(self.secrets()[i as int] == self.data@[i as int]@);
            i = i + 1;
        }
        proof {
            if first_named(self.secrets(), name@) is Some {
                lemma_first_named_iff(self.secrets(), name@);
            }
        }
        None
    }

    /// The file the store is kept in.
    pub fn file(&self) -> (f: &str)
        ensures
            f@ == self.path(),
    {
        self.file.as_str()
    }

    /// Stores a new secret for `name`, with username `user` and password `text`, hashed with
    /// the time stamp `now`.
    pub fn add_secret_at(&mut self, name: String, user: String, text: String, now: String)
        ensures
            unique_hashes(final(self).secrets()),
            final(self).path() == old(self).path(),
            final(self).secrets() == inserted(old(self).secrets(), new_secret(name@, user@, text@, now@)),
            final(self).contents() == old(self).contents().insert(
                secret_hash(name@, user@, text@, now@),
                new_secret(name@, user@, text@, now@),
            ),
            secret_hash(name@, user@, text@, now@).len() == 64,
            is_lower_hex(secret_hash(name@, user@, text@, now@)),
    {
        proof {
            use_type_invariant(&*self);
        }
        let mut bytes: Vec<u8> = Vec::new();
        append_bytes(&mut bytes, name.as_str().as_bytes());
        append_bytes(&mut bytes, text.as_str().as_bytes());
        append_bytes(&mut bytes, now.as_str().as_bytes());
        append_bytes(&mut bytes, user.as_str().as_bytes());
        assert(bytes@ =~= encode_utf8(name@) + encode_utf8(text@) + encode_utf8(now@) + encode_utf8(user@));
        let digest = sha256_digest(bytes.as_slice());
        let hash = to_hex_lower(digest.as_slice());
        proof {
            lemma_hex_lower_len(digest@);
        }
        let secret = Secret::new(hash, name, user, text);
        let mut data: Vec<Secret> = Vec::new();
        std::mem::swap(&mut data, &mut self.data);
        insert_secret(&mut data, secret);
        self.data = data;
    }

    /// Stores a new secret for `name`, with username `user` and password `text`, hashed with
    /// the current time as chrono writes it in RFC 3339 (UTC), and tells whether it did: the
    /// store is left as it was when the clock reads earlier than the Unix epoch or past the
    /// times chrono can write.
    pub fn add_secret(&mut self, name: String, user: String, text: String) -> (stored: bool)
        ensures
            unique_hashes(final(self).secrets()),
            final(self).path() == old(self).path(),
            !stored ==> final(self).secrets() == old(self).secrets(),
            stored ==> exists|secs: i64, nanos: u32|
                {
                    let now = rfc3339_utc(secs, nanos);
                    &&& 0 <= secs
                    &&& nanos < 1_000_000_000
                    &&& now.len() >= 25
                    &&& ends_in_utc_offset(now)
                    &&& final(self).secrets() == inserted(old(self).secrets(), #[trigger] new_secret(name@, user@, text@, rfc3339_utc(secs, nanos)))
                    &&& final(self).contents() == old(self).contents().insert(
                        secret_hash(name@, user@, text@, now),
                        new_secret(name@, user@, text@, now),
                    )
                    &&& secret_hash(name@, user@, text@, now).len() == 64
                    &&& is_lower_hex(secret_hash(name@, user@, text@, now))
                },
    {
        let reading = time_since_epoch();
        let stored = self.add_secret_at_reading(name, user, text, reading);
        proof {
            if stored {
                let (secs, nanos) = reading->0;
                let now = rfc3339_utc(secs as i64, nanos);
                assert(final(self).secrets() == inserted(old(self).secrets(), new_secret(name@, user@, text@, rfc3339_utc(secs as i64, nanos))));
            }
        }
        stored
    }

    /// Stores a new secret for `name`, with username `user` and password `text`, hashed with
    /// the clock reading `reading` (whole seconds and nanoseconds since the Unix epoch) as
    /// chrono writes it in RFC 3339 (UTC), and tells whether it did: the store is left as it
    /// was when there is no reading or chrono cannot write it.
    pub fn add_secret_at_reading(&mut self, name: String, user: String, text: String, reading: Option<(u64, u32)>) -> (stored: bool)
        ensures
            unique_hashes(final(self).secrets()),
            final(self).path() == old(self).path(),
            !stored ==> final(self).secrets() == old(self).secrets(),
            reading matches Some((secs, nanos)) && secs <= 8_000_000_000_000 && nanos < 1_000_000_000 ==> stored,
            stored ==> (reading matches Some((secs, nanos)) && secs <= 0x7fff_ffff_ffff_ffff && {
                let now = rfc3339_utc(secs as i64, nanos);
                &&& now.len() >= 25
                &&& ends_in_utc_offset(now)
                &&& final(self).secrets() == inserted(old(self).secrets(), new_secret(name@, user@, text@, now))
                &&& final(self).contents() == old(self).contents().insert(
                    secret_hash(name@, user@, text@, now),
                    new_secret(name@, user@, text@, now),
                )
                &&& secret_hash(name@, user@, text@, now).len() == 64
                &&& is_lower_hex(secret_hash(name@, user@, text@, now))
            }),
    {
        proof {
            use_type_invariant(&*self);
        }
        let (secs, nanos) = match reading {
            Some(t) => t,
            None => {
                return false;
            },
        };
        if secs > 0x7fff_ffff_ffff_ffff {
            return false;
        }
        let secs = secs as i64;
        let now = match rfc3339_utc_text(secs, nanos) {
            Some(t) => t,
            None => {
                return false;
            },
        };
        self.add_secret_at(name, user, text, now);
        assert(final(self).secrets() == inserted(old(self).secrets(), new_secret(name@, user@, text@, rfc3339_utc(secs, nanos))));
        true
    }

    /// All secrets, in the order the store keeps them.
    pub fn get_secrets(&self) -> (r: Vec<&Secret>)
        ensures
            unique_hashes(self.secrets()),
            r@.len() == self.secrets().len(),
            forall|i: int| 0 <= i < r@.len() ==> r@[i]@ == #[trigger] self.secrets()[i],
    {
        proof {
            use_type_invariant(self);
        }
        let mut r: Vec<&Secret> = Vec::new();
        let mut i: usize = 0;
        while i < self.data.len()
            invariant
                i <= self.data@.len(),
                self.secrets().len() == self.data@.len(),
                r@.len() == i,
                forall|j: int| 0 <= j < i ==> r@[j]@ == #[trigger] self.secrets()[j],
            decreases self.data@.len() - i,
        {
            r.push(&self.data[i]);
            assert(self.secrets()[i as int] == self.data@[i as int]@);
            i = i + 1;
        }
        r
    }

    /// Removes the first secret called `name`.
    pub fn del_secret(&mut self, name: String)
        requires
            has_name(old(self).secrets(), name@),
        ensures
            unique_hashes(final(self).secrets()),
            final(self).path() == old(self).path(),
            first_named(old(self).secrets(), name@) matches Some(i) && final(self).secrets()
                == old(self).secrets().remove(i) && final(self).contents() == old(
                self,
            ).contents().remove(old(self).secrets()[i].hash),
    {
        proof {
            use_type_invariant(&*self);
            lemma_first_named_iff(self.secrets(), name@);
        }
        let secret = self.get_secret(name.as_str());
        let hash = secret.unwrap().get_hash();
        let mut data: Vec<Secret> = Vec::new();
        std::mem::swap(&mut data, &mut self.data);
        remove_secret_with_hash(&mut data, &hash);
        self.data = data;
    }

    /// The text the store shows: each secret on a line of its own.
    pub fn to_display(&self) -> (text: String)
        ensures
            text@ == store_text(self.secrets()),
    {
        let mut text = String::new();
        let mut i: usize = 0;
        while i < self.data.len()
            invariant
                i <= self.data@.len(),
                self.secrets().len() == self.data@.len(),
                text@ == store_text(self.secrets().take(i as int)),
            decreases self.data@.len() - i,
        {
            let line = self.data[i].to_display();
            text.append(line.as_str());
            text.append("\n");
            assert(self.secrets()[i as int] == self.data@[i as int]@);
            assert(self.secrets().take(i + 1).drop_last() =~= self.secrets().take(i as int));
            i = i + 1;
        }
        assert(self.secrets().take(self.secrets().len() as int) =~= self.secrets());
        text
    }
}

} // verus!
