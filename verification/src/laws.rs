use vstd::prelude::*;
use crate::secret::SecretView;
use crate::store::{
    unique_hashes, holds_hash, by_hash, inserted, has_name, first_named, secret_names,
    lemma_inserted, lemma_removed, lemma_first_named_iff,
};
use crate::search::{lemma_first_of_is, lemma_first_of_iff};
use crate::entry::{Entry, epoch_millis};
use crate::parser::{parse_spec, CommandView};
use crate::words::{is_white_space, words, lemma_word_len_exact};
use crate::vault::{first_entry, entry_names, vault_key};
use crate::crypto::pbkdf2_sha256;
use vstd::utf8::encode_utf8;

verus! {

/// The characters that are not Unicode `White_Space`, range by range: everything but
/// U+0009 to U+000D, U+0020, U+0085, U+00A0, U+1680, U+2000 to U+200A, U+2028, U+2029,
/// U+202F, U+205F and U+3000.
pub open spec fn is_word_char(c: char) -> bool {
    let u = c as u32;
    ||| u <= 0x08
    ||| 0x0E <= u <= 0x1F
    ||| 0x21 <= u <= 0x84
    ||| 0x86 <= u <= 0x9F
    ||| 0xA1 <= u <= 0x167F
    ||| 0x1681 <= u <= 0x1FFF
    ||| 0x200B <= u <= 0x2027
    ||| 0x202A <= u <= 0x202E
    ||| 0x2030 <= u <= 0x205E
    ||| 0x2060 <= u <= 0x2FFF
    ||| 0x3001 <= u
}

/// A line with no white space in it is one word, the whole line: punctuation such as `-`,
/// `.` or `@`, letters of any script and control characters other than the white space
/// ones never split a word.
pub proof fn law_line_without_white_space_is_one_word(s: Seq<char>)
    requires
        s.len() > 0,
        forall|i: int| 0 <= i < s.len() ==> is_word_char(#[trigger] s[i]),
    ensures
        words(s) == seq![s],
{
    assert forall|j: int| 0 <= j < s.len() implies !is_white_space(#[trigger] s[j]) by {
        assert(is_word_char(s[j]));
    }
    lemma_word_len_exact(s, s.len() as int);
    assert(s.take(s.len() as int) =~= s);
    assert(s.skip(s.len() as int) =~= Seq::<char>::empty());
    assert(words(s) == seq![s.take(s.len() as int)] + words(s.skip(s.len() as int)));
    assert(words(s) =~= seq![s]);
}

/// Any one white space character between two words separates them, and is dropped.
pub proof fn law_white_space_separates_words(a: Seq<char>, c: char, b: Seq<char>)
    requires
        a.len() > 0,
        b.len() > 0,
        forall|i: int| 0 <= i < a.len() ==> is_word_char(#[trigger] a[i]),
        forall|i: int| 0 <= i < b.len() ==> is_word_char(#[trigger] b[i]),
        !is_word_char(c),
    ensures
        words(a + seq![c] + b) == seq![a, b],
{
    let t = a + seq![c] + b;
    let n = a.len() as int;
    assert forall|j: int| 0 <= j < n implies !is_white_space(#[trigger] t[j]) by {
        assert(t[j] == a[j]);
        assert(is_word_char(a[j]));
    }
    assert(t[n] == c);
    lemma_word_len_exact(t, n);
    assert(t[0] == a[0] && is_word_char(a[0]));
    assert(t.take(n) =~= a);
    let u = t.skip(n);
    assert(u[0] == c);
    assert(u.drop_first() =~= b);
    assert(words(u) == words(u.drop_first()));
    law_line_without_white_space_is_one_word(b);
    assert(words(t) == seq![t.take(n)] + words(u));
    assert(words(t) =~= seq![a, b]);
}

/// A parsed command's arguments are the words after the command word, exactly as they
/// were written: `get` and `del` carry their one word as the name, and `set` carries its
/// three words as name, username and password, in that order and unchanged.
pub proof fn law_parsed_arguments_are_the_words(cmd: Seq<char>, args: Seq<Seq<char>>)
    ensures
        parse_spec(cmd, args) matches Ok(CommandView::Get { name }) ==> args == seq![name],
        parse_spec(cmd, args) matches Ok(CommandView::Del { name }) ==> args == seq![name],
        parse_spec(cmd, args) matches Ok(CommandView::SetSecret { name, username, password })
            ==> args == seq![name, username, password],
{
    if parse_spec(cmd, args) is Ok {
        assert(args.len() == 1 ==> args =~= seq![args[0]]);
        assert(args.len() == 3 ==> args =~= seq![args[0], args[1], args[2]]);
    }
}

/// Every `set`, `get` or `del` line whose argument words are there is accepted: `set` with
/// three words, `get` and `del` with one.
pub proof fn law_commands_with_their_words_parse(cmd: Seq<char>, args: Seq<Seq<char>>)
    requires
        forall|i: int| 0 <= i < args.len() ==> #[trigger] args[i].len() > 0,
    ensures
        cmd == "set"@ && args.len() == 3 ==> parse_spec(cmd, args) is Ok,
        (cmd == "get"@ || cmd == "del"@) && args.len() == 1 ==> parse_spec(cmd, args) is Ok,
{
    reveal_strlit("get");
    reveal_strlit("del");
    reveal_strlit("set");
    assert("set"@[0] != "get"@[0] && "set"@[0] != "del"@[0]);
    assert("del"@[0] != "get"@[0]);
    if args.len() == 3 {
        assert(args[0].len() > 0 && args[1].len() > 0 && args[2].len() > 0);
    }
    if args.len() == 1 {
        assert(args[0].len() > 0);
    }
}

/// Storing a secret and then looking it up by its hash gives that secret back, and looking
/// it up by its name finds a secret.
pub proof fn law_stored_secret_is_found(s: Seq<SecretView>, v: SecretView)
    requires
        unique_hashes(s),
    ensures
        by_hash(inserted(s, v)).contains_key(v.hash),
        by_hash(inserted(s, v))[v.hash] == v,
        first_named(inserted(s, v), v.name) is Some,
{
    lemma_inserted(s, v);
    let t = inserted(s, v);
    let k = choose|k: int| 0 <= k < t.len() && t[k] == v;
    assert(t[k].name == v.name);
    assert(has_name(t, v.name));
    lemma_first_named_iff(t, v.name);
}

/// Deleting by name removes exactly one secret, and its hash is then no longer stored.
pub proof fn law_deleted_secret_is_gone(s: Seq<SecretView>, name: Seq<char>)
    requires
        unique_hashes(s),
        has_name(s, name),
    ensures
        first_named(s, name) matches Some(i) && s.remove(i).len() == s.len() - 1
            && !by_hash(s.remove(i)).contains_key(s[i].hash),
{
    lemma_first_named_iff(s, name);
    let i = first_named(s, name)->0;
    lemma_removed(s, i);
}

/// Storing a secret whose hash and name are new, then deleting by its name, gives back the
/// secrets there were before.
pub proof fn law_store_then_delete_restores(s: Seq<SecretView>, v: SecretView)
    requires
        unique_hashes(s),
        !holds_hash(s, v.hash),
        !has_name(s, v.name),
    ensures
        first_named(inserted(s, v), v.name) == Some(s.len() as int),
        inserted(s, v).remove(s.len() as int) == s,
{
    let t = inserted(s, v);
    assert(t == s.push(v));
    assert forall|j: int| 0 <= j < s.len() implies #[trigger] t[j].name != v.name by {
        assert(t[j] == s[j]);
        if t[j].name == v.name {
            assert(has_name(s, v.name));
        }
    }
    let names = secret_names(t);
    assert(names[s.len() as int] == v.name);
    assert forall|j: int| 0 <= j < s.len() implies #[trigger] names[j] != v.name by {
        assert(t[j].name != v.name);
    }
    lemma_first_of_is(names, v.name, s.len() as int);
    assert(t.remove(s.len() as int) =~= s);
}

/// The key a vault is sealed and opened with is PBKDF2-HMAC-SHA256 taking the UTF-8 bytes
/// of the secret as the password and the salt bytes as the salt, with 100000 rounds; the
/// two are never taken the other way round.
pub proof fn law_vault_key_is_pbkdf2_of_secret_and_salt(secret: Seq<char>, salt: Seq<u8>)
    ensures
        vault_key(secret, salt) == pbkdf2_sha256(encode_utf8(secret), salt, 100_000),
{
}

/// An entry's stamp is its clock reading in whole milliseconds: it gives back the reading's
/// seconds and the milliseconds of its nanoseconds, and a later reading never gives an
/// earlier stamp.
pub proof fn law_entry_stamp_is_the_reading(secs: u64, nanos: u32, secs2: u64, nanos2: u32)
    requires
        nanos < 1_000_000_000,
        nanos2 < 1_000_000_000,
    ensures
        epoch_millis(secs, nanos) / 1000 == secs,
        epoch_millis(secs, nanos) % 1000 == nanos / 1_000_000,
        secs < secs2 || (secs == secs2 && nanos <= nanos2) ==> epoch_millis(secs, nanos) <= epoch_millis(
            secs2,
            nanos2,
        ),
{
    let m = nanos / 1_000_000;
    let m2 = nanos2 / 1_000_000;
    assert(0 <= m < 1000);
    assert(0 <= m2 < 1000);
    assert(nanos <= nanos2 ==> m <= m2) by (nonlinear_arith)
        requires
            m == nanos / 1_000_000,
            m2 == nanos2 / 1_000_000,
    ;
    assert((secs * 1000 + m) / 1000 == secs && (secs * 1000 + m) % 1000 == m) by (nonlinear_arith)
        requires
            0 <= m < 1000,
    ;
    assert(secs < secs2 ==> secs * 1000 + m < secs2 * 1000 + m2) by (nonlinear_arith)
        requires
            0 <= m < 1000,
            0 <= m2 < 1000,
    ;
}

/// Storing a secret whose hash is not yet stored adds it after the others, so the store
/// grows by one; storing one whose hash is stored takes that secret's place, so the store
/// keeps its size.
pub proof fn law_new_hash_grows_the_store(s: Seq<SecretView>, v: SecretView)
    requires
        unique_hashes(s),
    ensures
        !holds_hash(s, v.hash) ==> inserted(s, v) == s.push(v) && inserted(s, v).len() == s.len() + 1,
        holds_hash(s, v.hash) ==> inserted(s, v).len() == s.len(),
{
    lemma_inserted(s, v);
}

/// An entry added to a vault is found by its name.
pub proof fn law_added_entry_is_found(es: Seq<Entry>, e: Entry)
    ensures
        first_entry(es.push(e), e.name@) is Some,
{
    let t = es.push(e);
    let names = entry_names(t);
    assert(names[es.len() as int] == e.name@);
    lemma_first_of_iff(names, e.name@);
}

} // verus!
