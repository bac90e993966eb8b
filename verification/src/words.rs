use vstd::prelude::*;

verus! {

/// Unicode `White_Space`: the characters that separate words on a command line.
pub open spec fn is_white_space(c: char) -> bool {
    let u = c as u32;
    ||| 0x09 <= u <= 0x0D
    ||| u == 0x20
    ||| u == 0x85
    ||| u == 0xA0
    ||| u == 0x1680
    ||| 0x2000 <= u <= 0x200A
    ||| u == 0x2028
    ||| u == 0x2029
    ||| u == 0x202F
    ||| u == 0x205F
    ||| u == 0x3000
}

/// The number of characters before the first white space in `s`.
pub open spec fn word_len(s: Seq<char>) -> nat
    decreases s.len(),
{
    if s.len() > 0 && !is_white_space(s[0]) {
        1 + word_len(s.drop_first())
    } else {
        0
    }
}

pub proof fn lemma_word_len_bounded(s: Seq<char>)
    ensures
        word_len(s) <= s.len(),
        s.len() > 0 && !is_white_space(s[0]) ==> word_len(s) >= 1,
    decreases s.len(),
{
    if s.len() > 0 && !is_white_space(s[0]) {
        lemma_word_len_bounded(s.drop_first());
    }
}

/// The words of `s`: its maximal runs of characters that are not white space, in order.
pub open spec fn words(s: Seq<char>) -> Seq<Seq<char>>
    decreases s.len(),
{
    if s.len() == 0 {
        seq![]
    } else if is_white_space(s[0]) {
        words(s.drop_first())
    } else {
        proof {
            lemma_word_len_bounded(s);
        }
        let n = word_len(s) as int;
        seq![s.take(n)] + words(s.skip(n))
    }
}

/// `word_len` is `k` exactly when the first `k` characters are not white space and the
/// character after them, if any, is.
pub proof fn lemma_word_len_exact(s: Seq<char>, k: int)
    requires
        0 <= k <= s.len(),
        forall|j: int| 0 <= j < k ==> !is_white_space(#[trigger] s[j]),
        k < s.len() ==> is_white_space(s[k]),
    ensures
        word_len(s) == k,
    decreases k,
{
    if k > 0 {
        let t = s.drop_first();
        assert forall|j: int| 0 <= j < k - 1 implies !is_white_space(#[trigger] t[j]) by {
            assert(t[j] == s[j + 1]);
        }
        if k < s.len() {
            assert(t[k - 1] == s[k]);
        }
        lemma_word_len_exact(t, k - 1);
    }
}

/// Every word has at least one character, and none holds white space.
pub proof fn lemma_words_nonempty(s: Seq<char>)
    ensures
        forall|i: int| 0 <= i < words(s).len() ==> #[trigger] words(s)[i].len() > 0,
    decreases s.len(),
{
    if s.len() == 0 {
    } else if is_white_space(s[0]) {
        lemma_words_nonempty(s.drop_first());
        assert(words(s) == words(s.drop_first()));
    } else {
        lemma_word_len_bounded(s);
        let n = word_len(s) as int;
        lemma_words_nonempty(s.skip(n));
        let w = words(s);
        assert(w == seq![s.take(n)] + words(s.skip(n)));
        assert forall|i: int| 0 <= i < w.len() implies #[trigger] w[i].len() > 0 by {
            if i == 0 {
                assert(w[0] == s.take(n));
            } else {
                assert(w[i] == words(s.skip(n))[i - 1]);
            }
        }
    }
}

/// Whether `c` is white space.
pub fn is_space(c: char) -> (b: bool)
    ensures
        b == is_white_space(c),
{
    let u = c as u32;
    (0x09 <= u && u <= 0x0D) || u == 0x20 || u == 0x85 || u == 0xA0 || u == 0x1680 || (0x2000
        <= u && u <= 0x200A) || u == 0x2028 || u == 0x2029 || u == 0x202F || u == 0x205F || u
        == 0x3000
}

/// The characters of each string slice.
pub open spec fn views_of(v: Seq<&str>) -> Seq<Seq<char>> {
    v.map_values(|w: &str| w@)
}

/// Splits `input` into its words, as `str::split_whitespace` does.
pub fn split_words<'a>(input: &'a str) -> (out: Vec<&'a str>)
    ensures
        views_of(out@) == words(input@),
{
    let n = input.unicode_len();
    let ghost s = input@;
    let mut out: Vec<&'a str> = Vec::new();
    let mut i: usize = 0;
    assert(s.skip(0) =~= s);
    while i < n
        invariant
            n == s.len(),
            s == input@,
            i <= n,
            words(s) =~= views_of(out@) + words(s.skip(i as int)),
        decreases n - i,
    {
        let c = input.get_char(i);
        if is_space(c) {
            assert(s.skip(i as int).drop_first() =~= s.skip(i + 1));
            i = i + 1;
        } else {
            let start = i;
            while i < n && !is_space(input.get_char(i))
                invariant
                    n == s.len(),
                    s == input@,
                    start < n,
                    !is_white_space(s[start as int]),
                    start <= i <= n,
                    forall|j: int| start <= j < i ==> !is_white_space(#[trigger] s[j]),
                decreases n - i,
            {
                i = i + 1;
            }
            let ghost t = s.skip(start as int);
            let ghost k = i - start;
            proof {
                assert forall|j: int| 0 <= j < k implies !is_white_space(#[trigger] t[j]) by {
                    assert(t[j] == s[start + j]);
                }
                if k < t.len() {
                    assert(t[k] == s[i as int]);
                }
                lemma_word_len_exact(t, k);
                lemma_word_len_bounded(t);
                assert(t[0] == s[start as int]);
                assert(t.take(k) =~= s.subrange(start as int, i as int));
                assert(t.skip(k) =~= s.skip(i as int));
                assert(words(t) == seq![t.take(k)] + words(t.skip(k)));
            }
            let w = input.substring_char(start, i);
            let ghost before = out@;
            out.push(w);
            assert(views_of(out@) =~= views_of(before) + seq![w@]);
        }
    }
    assert(s.skip(n as int).len() == 0);
    out
}

} // verus!
