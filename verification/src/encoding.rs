use vstd::prelude::*;

verus! {

/// The character of the standard base64 alphabet (RFC 4648) for a six-bit value:
/// `A`-`Z`, `a`-`z`, `0`-`9`, `+`, `/`.
pub open spec fn b64_digit(v: int) -> char {
    if v < 26 {
        (65 + v) as char
    } else if v < 52 {
        (71 + v) as char
    } else if v < 62 {
        (v - 4) as char
    } else if v == 62 {
        '+'
    } else {
        '/'
    }
}

/// The four characters three bytes `x`, `y`, `z` become: their 24 bits, six at a time.
pub open spec fn b64_quad(x: u8, y: u8, z: u8) -> Seq<char> {
    seq![
        b64_digit((x / 4) as int),
        b64_digit((x % 4) * 16 + y / 16),
        b64_digit((y % 16) * 4 + z / 64),
        b64_digit((z % 64) as int),
    ]
}

/// Standard base64 with padding (RFC 4648, section 4): every three bytes become four
/// characters; a last single byte becomes two characters and `==`, a last two bytes three
/// characters and `=` (the missing bits are zero).
pub open spec fn base64_encoded(b: Seq<u8>) -> Seq<char>
    decreases b.len(),
{
    if b.len() == 0 {
        seq![]
    } else if b.len() == 1 {
        b64_quad(b[0], 0, 0).take(2) + seq!['=', '=']
    } else if b.len() == 2 {
        b64_quad(b[0], b[1], 0).take(3) + seq!['=']
    } else {
        b64_quad(b[0], b[1], b[2]) + base64_encoded(b.subrange(3, b.len() as int))
    }
}

/// What the standard base64 engine decodes a text to: the bytes whose encoding the text is,
/// if there are any.
pub open spec fn base64_decoded(t: Seq<char>) -> Option<Seq<u8>> {
    if exists|b: Seq<u8>| base64_encoded(b) == t {
        Some(choose|b: Seq<u8>| base64_encoded(b) == t)
    } else {
        None
    }
}

proof fn lemma_b64_digit(v: int, w: int)
    requires
        0 <= v < 64,
        0 <= w < 64,
    ensures
        b64_digit(v) != '=',
        b64_digit(v) == b64_digit(w) ==> v == w,
{
}

proof fn lemma_b64_quad(x: u8, y: u8, z: u8, p: u8, q: u8, r: u8)
    ensures
        b64_quad(x, y, z)[0] != '=',
        b64_quad(x, y, z)[1] != '=',
        b64_quad(x, y, z)[2] != '=',
        b64_quad(x, y, z)[3] != '=',
        b64_quad(x, y, z) == b64_quad(p, q, r) ==> x == p && y == q && z == r,
{
    assert(x / 4 < 64 && (x % 4) * 16 + y / 16 < 64 && (y % 16) * 4 + z / 64 < 64 && z % 64 < 64)
        by (bit_vector);
    assert(p / 4 < 64 && (p % 4) * 16 + q / 16 < 64 && (q % 16) * 4 + r / 64 < 64 && r % 64 < 64)
        by (bit_vector);
    lemma_b64_digit((x / 4) as int, (p / 4) as int);
    lemma_b64_digit((x % 4) * 16 + y / 16, (p % 4) * 16 + q / 16);
    lemma_b64_digit((y % 16) * 4 + z / 64, (q % 16) * 4 + r / 64);
    lemma_b64_digit((z % 64) as int, (r % 64) as int);
    if b64_quad(x, y, z) == b64_quad(p, q, r) {
        assert(b64_quad(x, y, z)[0] == b64_quad(p, q, r)[0]);
        assert(b64_quad(x, y, z)[1] == b64_quad(p, q, r)[1]);
        assert(b64_quad(x, y, z)[2] == b64_quad(p, q, r)[2]);
        assert(b64_quad(x, y, z)[3] == b64_quad(p, q, r)[3]);
        assert(x == p && y == q && z == r) by (bit_vector)
            requires
                x / 4 == p / 4,
                (x % 4) * 16 + y / 16 == (p % 4) * 16 + q / 16,
                (y % 16) * 4 + z / 64 == (q % 16) * 4 + r / 64,
                z % 64 == r % 64,
        ;
    }
}

/// Base64 text is four characters for every three bytes or part of three.
pub proof fn lemma_base64_len(b: Seq<u8>)
    ensures
        base64_encoded(b).len() == 4 * ((b.len() + 2) / 3),
    decreases b.len(),
{
    if b.len() >= 3 {
        lemma_base64_len(b.subrange(3, b.len() as int));
    }
}

/// Different byte strings have different base64 texts.
pub proof fn lemma_base64_injective(a: Seq<u8>, b: Seq<u8>)
    requires
        base64_encoded(a) == base64_encoded(b),
    ensures
        a == b,
    decreases a.len(),
{
    let t = base64_encoded(a);
    lemma_base64_len(a);
    lemma_base64_len(b);
    if a.len() == 0 || b.len() == 0 {
        assert(a.len() == 0 && b.len() == 0);
        assert(a =~= b);
    } else {
        // the first three bytes of each, zero where there are fewer
        let (a1, a2): (u8, u8) = (if a.len() > 1 { a[1] } else { 0 }, if a.len() > 2 { a[2] } else { 0 });
        let (b1, b2): (u8, u8) = (if b.len() > 1 { b[1] } else { 0 }, if b.len() > 2 { b[2] } else { 0 });
        let qa = b64_quad(a[0], a1, a2);
        let qb = b64_quad(b[0], b1, b2);
        lemma_b64_quad(a[0], a1, a2, b[0], b1, b2);
        lemma_b64_quad(b[0], b1, b2, a[0], a1, a2);
        assert(t[0] == qa[0] && t[1] == qa[1]);
        assert(t[0] == qb[0] && t[1] == qb[1]);
        assert(a.len() > 1 ==> t[2] == qa[2]);
        assert(b.len() > 1 ==> t[2] == qb[2]);
        assert(a.len() > 2 ==> t[3] == qa[3]);
        assert(b.len() > 2 ==> t[3] == qb[3]);
        assert(a.len() == 1 ==> t[2] == '=');
        assert(b.len() == 1 ==> t[2] == '=');
        assert(a.len() == 2 ==> t[3] == '=');
        assert(b.len() == 2 ==> t[3] == '=');
        assert(a.len() == 1 <==> b.len() == 1);
        assert(a.len() == 2 <==> b.len() == 2);
        assert(qa == qb) by {
            if a.len() <= 2 {
                assert(qa[3] == qb[3]);
            }
            if a.len() == 1 {
                assert(qa[2] == qb[2]);
            }
            assert(qa =~= qb);
        }
        if a.len() >= 3 {
            let ra = a.subrange(3, a.len() as int);
            let rb = b.subrange(3, b.len() as int);
            assert(base64_encoded(ra) == t.subrange(4, t.len() as int));
            assert(base64_encoded(rb) == t.subrange(4, t.len() as int));
            lemma_base64_injective(ra, rb);
            assert(b.len() >= 3);
            assert(a[0] == b[0] && a[1] == b[1] && a[2] == b[2]);
            assert(a.len() == b.len());
            assert forall|i: int| 0 <= i < a.len() implies a[i] == b[i] by {
                if i >= 3 {
                    assert(a[i] == ra[i - 3]);
                    assert(b[i] == rb[i - 3]);
                }
            }
            assert(a =~= b);
        } else {
            assert(a.len() == b.len());
            assert(a[0] == b[0]);
            assert(a.len() == 2 ==> a[1] == b[1]);
            assert(a =~= b);
        }
    }
}

/// A text that is the base64 encoding of `b` decodes to `b`.
pub proof fn lemma_base64_decodes(b: Seq<u8>, t: Seq<char>)
    requires
        base64_encoded(b) == t,
    ensures
        base64_decoded(t) == Some(b),
{
    let c = choose|c: Seq<u8>| base64_encoded(c) == t;
    lemma_base64_injective(c, b);
}

} // verus!
