//! Session identifiers: every conversation gets its own, always the same one.

use sha2::{Digest, Sha256};
use vstd::prelude::*;
use vstd::utf8::encode_utf8;

verus! {

/// What is hashed before the seed of a session.
pub const SESSION_PREFIX: &'static str = "antigravity-session-v1:";

/// The digits of hexadecimal numbers.
pub const HEX_DIGITS: &'static str = "0123456789abcdef";

/// The SHA-256 digest of bytes, as `sha2` computes it.
pub uninterp spec fn sha256_digest(data: Seq<u8>) -> Seq<u8>;

/// Calls `sha2::Sha256::digest`. Claimed of it: the digest is a function of the
/// bytes and has 32 of them. Which bytes they are is named and not spelled out.
#[verifier::external_body]
fn sha256(data: &Vec<u8>) -> (r: Vec<u8>)
    ensures
        r@ == sha256_digest(data@),
        r@.len() == 32,
{
    Sha256::digest(data).to_vec()
}

/// A number below 16 as a hexadecimal digit.
pub open spec fn hex_digit(n: int) -> char {
    HEX_DIGITS@[n]
}

/// A byte as two hexadecimal digits.
pub open spec fn hex_pair(b: int) -> Seq<char> {
    seq![hex_digit(b / 16), hex_digit(b % 16)]
}

/// The bytes from `from` up to `to` as hexadecimal digits, two for each.
pub open spec fn hex_run(bytes: Seq<u8>, from: int, to: int) -> Seq<char>
    decreases to - from,
{
    if from >= to {
        Seq::empty()
    } else {
        hex_run(bytes, from, to - 1) + hex_pair(bytes[to - 1] as int)
    }
}

/// A random UUID (RFC 4122, version 4) whose random bits are those of `h`: the
/// digit of the version and the two bits of the variant are set over them.
pub open spec fn uuid_text(h: Seq<u8>) -> Seq<char> {
    hex_run(h, 0, 4) + "-"@ + hex_run(h, 4, 6) + "-4"@ + seq![hex_digit(h[6] as int % 16)] + hex_run(
        h,
        7,
        8,
    ) + "-"@ + hex_pair(128 + h[8] as int % 64) + hex_run(h, 9, 10) + "-"@ + hex_run(h, 10, 16)
}

/// The session identifier that belongs to a seed.
pub open spec fn session_uuid(seed: Seq<char>) -> Seq<char> {
    uuid_text(sha256_digest(encode_utf8(SESSION_PREFIX@) + encode_utf8(seed)))
}

proof fn lemma_hex_digits()
    ensures
        HEX_DIGITS@.len() == 16,
        forall|n: int|
            0 <= n < 16 ==> '0' <= #[trigger] HEX_DIGITS@[n] <= '9' || 'a' <= HEX_DIGITS@[n] <= 'f',
        HEX_DIGITS@[8] == '8',
        HEX_DIGITS@[9] == '9',
        HEX_DIGITS@[10] == 'a',
        HEX_DIGITS@[11] == 'b',
{
    reveal_strlit("0123456789abcdef");
}

/// Adds a number below 16 as a hexadecimal digit.
fn push_digit(out: &mut String, n: u8)
    requires
        n < 16,
    ensures
        final(out)@ == old(out)@.push(hex_digit(n as int)),
{
    proof {
        lemma_hex_digits();
    }
    let d = HEX_DIGITS.substring_char(n as usize, n as usize + 1);
    out.append(d);
    assert(out@ =~= old(out)@.push(hex_digit(n as int)));
}

/// Adds a byte as two hexadecimal digits.
fn push_pair(out: &mut String, b: u8)
    ensures
        final(out)@ == old(out)@ + hex_pair(b as int),
{
    push_digit(out, b / 16);
    push_digit(out, b % 16);
    assert(out@ =~= old(out)@ + hex_pair(b as int));
}

/// Adds the bytes from `from` up to `to` as hexadecimal digits.
fn push_run(out: &mut String, bytes: &Vec<u8>, from: usize, to: usize)
    requires
        from <= to <= bytes.len(),
    ensures
        final(out)@ == old(out)@ + hex_run(bytes@, from as int, to as int),
{
    let mut i: usize = from;
    assert(out@ =~= old(out)@ + hex_run(bytes@, from as int, from as int));
    while i < to
        invariant
            from <= i <= to <= bytes.len(),
            out@ == old(out)@ + hex_run(bytes@, from as int, i as int),
        decreases to - i,
    {
        push_pair(out, bytes[i]);
        i = i + 1;
        assert(out@ =~= old(out)@ + hex_run(bytes@, from as int, i as int));
    }
}

/// A random UUID whose random bits are those of the first sixteen bytes.
pub fn format_uuid(h: &Vec<u8>) -> (r: String)
    requires
        h.len() >= 16,
    ensures
        r@ == uuid_text(h@),
{
    let mut out = String::new();
    push_run(&mut out, h, 0, 4);
    out.append("-");
    push_run(&mut out, h, 4, 6);
    out.append("-4");
    push_digit(&mut out, h[6] % 16);
    push_run(&mut out, h, 7, 8);
    out.append("-");
    push_pair(&mut out, 128 + h[8] % 64);
    push_run(&mut out, h, 9, 10);
    out.append("-");
    push_run(&mut out, h, 10, 16);
    assert(out@ =~= uuid_text(h@));
    out
}

/// The session identifier that belongs to a seed: a UUID made from its hash.
pub fn derive_session_uuid(seed: &str) -> (r: String)
    ensures
        r@ == session_uuid(seed@),
        is_random_uuid(r@),
{
    let mut data = SESSION_PREFIX.as_bytes_vec();
    let mut rest = seed.as_bytes_vec();
    data.append(&mut rest);
    let hash = sha256(&data);
    proof {
        law_session_id_is_a_uuid(hash@);
    }
    format_uuid(&hash)
}

// ----- Laws -----

/// A digit of a hexadecimal number in small letters.
pub open spec fn is_hex(c: char) -> bool {
    '0' <= c <= '9' || 'a' <= c <= 'f'
}

/// The form that RFC 4122 gives a random UUID: five groups of hexadecimal
/// digits, the version 4 at the head of the third, the variant at that of the
/// fourth.
pub open spec fn is_random_uuid(s: Seq<char>) -> bool {
    &&& s.len() == 36
    &&& s[8] == '-' && s[13] == '-' && s[18] == '-' && s[23] == '-'
    &&& s[14] == '4'
    &&& s[19] == '8' || s[19] == '9' || s[19] == 'a' || s[19] == 'b'
    &&& forall|i: int|
        0 <= i < 36 && i != 8 && i != 13 && i != 18 && i != 23 ==> is_hex(#[trigger] s[i])
}

proof fn lemma_hex_run(bytes: Seq<u8>, from: int, to: int)
    requires
        from <= to,
    ensures
        hex_run(bytes, from, to).len() == 2 * (to - from),
        forall|i: int|
            0 <= i < hex_run(bytes, from, to).len() ==> is_hex(
                #[trigger] hex_run(bytes, from, to)[i],
            ),
    decreases to - from,
{
    lemma_hex_digits();
    if from < to {
        lemma_hex_run(bytes, from, to - 1);
        let b = bytes[to - 1] as int;
        assert(is_hex(HEX_DIGITS@[b / 16]) && is_hex(HEX_DIGITS@[b % 16]));
    }
}

/// A session identifier has the form of a random UUID, whatever the digest.
pub proof fn law_session_id_is_a_uuid(h: Seq<u8>)
    ensures
        is_random_uuid(uuid_text(h)),
{
    lemma_hex_digits();
    reveal_strlit("-");
    reveal_strlit("-4");
    lemma_hex_run(h, 0, 4);
    lemma_hex_run(h, 4, 6);
    lemma_hex_run(h, 7, 8);
    lemma_hex_run(h, 9, 10);
    lemma_hex_run(h, 10, 16);
    let low = h[6] as int % 16;
    let mixed = 128 + h[8] as int % 64;
    assert(is_hex(HEX_DIGITS@[low]));
    assert(8 <= mixed / 16 < 12);
    assert(is_hex(HEX_DIGITS@[mixed / 16]) && is_hex(HEX_DIGITS@[mixed % 16]));
}

/// A hexadecimal digit of a number below 16, in small letters.
pub open spec fn written_hex(n: int) -> char {
    if n < 10 {
        ((48 + n) as u32) as char
    } else {
        ((87 + n) as u32) as char
    }
}

proof fn lemma_written_hex(n: int)
    requires
        0 <= n < 16,
    ensures
        hex_digit(n) == written_hex(n),
{
    reveal_strlit("0123456789abcdef");
}

proof fn lemma_byte_in_run(bytes: Seq<u8>, from: int, to: int, b: int)
    requires
        from <= b < to,
    ensures
        hex_run(bytes, from, to).len() == 2 * (to - from),
        hex_run(bytes, from, to)[2 * (b - from)] == written_hex(bytes[b] as int / 16),
        hex_run(bytes, from, to)[2 * (b - from) + 1] == written_hex(bytes[b] as int % 16),
    decreases to - from,
{
    lemma_hex_run(bytes, from, to);
    lemma_hex_run(bytes, from, to - 1);
    lemma_written_hex(bytes[b] as int / 16);
    lemma_written_hex(bytes[b] as int % 16);
    if b < to - 1 {
        lemma_byte_in_run(bytes, from, to - 1, b);
    }
}

/// Seven texts in a row, by their places.
proof fn lemma_row_of_texts(
    a: Seq<char>,
    b: Seq<char>,
    c: Seq<char>,
    d: Seq<char>,
    e: Seq<char>,
    f: Seq<char>,
    g: Seq<char>,
)
    ensures
        ({
            let t = a + b + c + d + e + f + g;
            let n1 = a.len() as int;
            let n2 = n1 + b.len();
            let n3 = n2 + c.len();
            let n4 = n3 + d.len();
            let n5 = n4 + e.len();
            let n6 = n5 + f.len();
            let n7 = n6 + g.len();
            &&& t.len() == n7
            &&& t.subrange(0, n1) == a && t.subrange(n1, n2) == b && t.subrange(n2, n3) == c
            &&& t.subrange(n3, n4) == d && t.subrange(n4, n5) == e && t.subrange(n5, n6) == f
            &&& t.subrange(n6, n7) == g
        }),
{
    let t = a + b + c + d + e + f + g;
    let n1 = a.len() as int;
    let n2 = n1 + b.len();
    let n3 = n2 + c.len();
    let n4 = n3 + d.len();
    let n5 = n4 + e.len();
    let n6 = n5 + f.len();
    assert(t.subrange(0, n1) =~= a);
    assert(t.subrange(n1, n2) =~= b);
    assert(t.subrange(n2, n3) =~= c);
    assert(t.subrange(n3, n4) =~= d);
    assert(t.subrange(n4, n5) =~= e);
    assert(t.subrange(n5, n6) =~= f);
    assert(t.subrange(n6, n6 + g.len()) =~= g);
}

/// Where the groups of an identifier stand.
proof fn lemma_groups(h: Seq<u8>)
    ensures
        uuid_text(h).len() == 36,
        uuid_text(h)[8] == '-' && uuid_text(h)[13] == '-' && uuid_text(h)[14] == '4',
        uuid_text(h)[18] == '-' && uuid_text(h)[23] == '-',
        uuid_text(h).subrange(0, 8) == hex_run(h, 0, 4),
        uuid_text(h).subrange(9, 13) == hex_run(h, 4, 6),
        uuid_text(h)[15] == hex_digit(h[6] as int % 16),
        uuid_text(h).subrange(16, 18) == hex_run(h, 7, 8),
        uuid_text(h)[19] == hex_digit((128 + h[8] as int % 64) / 16),
        uuid_text(h)[20] == hex_digit((128 + h[8] as int % 64) % 16),
        uuid_text(h).subrange(21, 23) == hex_run(h, 9, 10),
        uuid_text(h).subrange(24, 36) == hex_run(h, 10, 16),
{
    reveal_strlit("-");
    reveal_strlit("-4");
    lemma_hex_run(h, 0, 4);
    lemma_hex_run(h, 4, 6);
    lemma_hex_run(h, 7, 8);
    lemma_hex_run(h, 9, 10);
    lemma_hex_run(h, 10, 16);
    let six = seq![hex_digit(h[6] as int % 16)];
    let pair = hex_pair(128 + h[8] as int % 64);
    let front = hex_run(h, 0, 4) + "-"@ + hex_run(h, 4, 6) + "-4"@ + six + hex_run(h, 7, 8)
        + "-"@;
    let rear = pair + hex_run(h, 9, 10) + "-"@ + hex_run(h, 10, 16);
    let none = Seq::<char>::empty();
    let t = uuid_text(h);
    lemma_row_of_texts(
        hex_run(h, 0, 4),
        "-"@,
        hex_run(h, 4, 6),
        "-4"@,
        six,
        hex_run(h, 7, 8),
        "-"@,
    );
    lemma_row_of_texts(pair, hex_run(h, 9, 10), "-"@, hex_run(h, 10, 16), none, none, none);
    assert(pair + hex_run(h, 9, 10) + "-"@ + hex_run(h, 10, 16) + none + none + none =~= rear);
    assert(t =~= front + rear);
    assert(front.len() == 19 && rear.len() == 17);
    assert(t.subrange(0, 8) =~= front.subrange(0, 8));
    assert(t[8] == front.subrange(8, 9)[0]);
    assert(t.subrange(9, 13) =~= front.subrange(9, 13));
    assert(t[13] == front.subrange(13, 15)[0] && t[14] == front.subrange(13, 15)[1]);
    assert(t[15] == front.subrange(15, 16)[0]);
    assert(t.subrange(16, 18) =~= front.subrange(16, 18));
    assert(t[18] == front.subrange(18, 19)[0]);
    assert(t[19] == rear.subrange(0, 2)[0] && t[20] == rear.subrange(0, 2)[1]);
    assert(t.subrange(21, 23) =~= rear.subrange(2, 4));
    assert(t[23] == rear.subrange(4, 5)[0]);
    assert(t.subrange(24, 36) =~= rear.subrange(5, 17));
}

/// Bytes by the groups that show them.
proof fn lemma_bytes_in_groups(t: Seq<char>, x: Seq<u8>, b: int)
    requires
        0 <= b < 16,
        t.len() == 36,
        t[14] == '4',
        t.subrange(0, 8) == hex_run(x, 0, 4),
        t.subrange(9, 13) == hex_run(x, 4, 6),
        t[15] == hex_digit(x[6] as int % 16),
        t.subrange(16, 18) == hex_run(x, 7, 8),
        t[19] == hex_digit((128 + x[8] as int % 64) / 16),
        t[20] == hex_digit((128 + x[8] as int % 64) % 16),
        t.subrange(21, 23) == hex_run(x, 9, 10),
        t.subrange(24, 36) == hex_run(x, 10, 16),
    ensures
        b < 4 ==> t[2 * b] == written_hex(x[b] as int / 16) && t[2 * b + 1] == written_hex(
            x[b] as int % 16,
        ),
        4 <= b < 6 ==> t[2 * b + 1] == written_hex(x[b] as int / 16) && t[2 * b + 2]
            == written_hex(x[b] as int % 16),
        b == 6 ==> t[14] == '4' && t[15] == written_hex(x[6] as int % 16),
        b == 7 ==> t[16] == written_hex(x[7] as int / 16) && t[17] == written_hex(
            x[7] as int % 16,
        ),
        b == 8 ==> t[19] == written_hex(8 + (x[8] as int / 16) % 4) && t[20] == written_hex(
            x[8] as int % 16,
        ),
        b == 9 ==> t[21] == written_hex(x[9] as int / 16) && t[22] == written_hex(
            x[9] as int % 16,
        ),
        b >= 10 ==> t[2 * b + 4] == written_hex(x[b] as int / 16) && t[2 * b + 5]
            == written_hex(x[b] as int % 16),
{
    let mixed = 128 + x[8] as int % 64;
    assert(mixed / 16 == 8 + (x[8] as int / 16) % 4 && mixed % 16 == x[8] as int % 16);
    lemma_written_hex(x[6] as int % 16);
    lemma_written_hex(mixed / 16);
    lemma_written_hex(mixed % 16);
    if b < 4 {
        lemma_byte_in_run(x, 0, 4, b);
        assert(t.subrange(0, 8)[2 * b] == t[2 * b]);
        assert(t.subrange(0, 8)[2 * b + 1] == t[2 * b + 1]);
    } else if b < 6 {
        lemma_byte_in_run(x, 4, 6, b);
        assert(t.subrange(9, 13)[2 * b - 8] == t[2 * b + 1]);
        assert(t.subrange(9, 13)[2 * b - 7] == t[2 * b + 2]);
    } else if b == 7 {
        lemma_byte_in_run(x, 7, 8, b);
        assert(t.subrange(16, 18)[0] == t[16]);
        assert(t.subrange(16, 18)[1] == t[17]);
    } else if b == 9 {
        lemma_byte_in_run(x, 9, 10, b);
        assert(t.subrange(21, 23)[0] == t[21]);
        assert(t.subrange(21, 23)[1] == t[22]);
    } else if b >= 10 {
        lemma_byte_in_run(x, 10, 16, b);
        assert(t.subrange(24, 36)[2 * b - 20] == t[2 * b + 4]);
        assert(t.subrange(24, 36)[2 * b - 19] == t[2 * b + 5]);
    }
}

/// The identifier shows all of the first sixteen bytes, in order and two digits each, in
/// groups of four, two, two, two and six bytes; over the first digit of byte 6 stands the
/// version, and over the upper two bits of byte 8 the variant. `b` is any byte.
pub proof fn law_identifier_shows_the_bytes(h: &Vec<u8>, b: int, r: String)
    requires
        call_ensures(format_uuid, (h,), r),
        h.len() >= 16,
        0 <= b < 16,
    ensures
        r@.len() == 36,
        r@[8] == '-' && r@[13] == '-' && r@[18] == '-' && r@[23] == '-',
        b < 4 ==> r@[2 * b] == written_hex(h@[b] as int / 16) && r@[2 * b + 1] == written_hex(
            h@[b] as int % 16,
        ),
        4 <= b < 6 ==> r@[2 * b + 1] == written_hex(h@[b] as int / 16) && r@[2 * b + 2]
            == written_hex(h@[b] as int % 16),
        b == 6 ==> r@[14] == '4' && r@[15] == written_hex(h@[6] as int % 16),
        b == 7 ==> r@[16] == written_hex(h@[7] as int / 16) && r@[17] == written_hex(
            h@[7] as int % 16,
        ),
        b == 8 ==> r@[19] == written_hex(8 + (h@[8] as int / 16) % 4) && r@[20] == written_hex(
            h@[8] as int % 16,
        ),
        b == 9 ==> r@[21] == written_hex(h@[9] as int / 16) && r@[22] == written_hex(
            h@[9] as int % 16,
        ),
        b >= 10 ==> r@[2 * b + 4] == written_hex(h@[b] as int / 16) && r@[2 * b + 5]
            == written_hex(h@[b] as int % 16),
{
    lemma_groups(h@);
    lemma_bytes_in_groups(r@, h@, b);
}

/// The session of a seed is the identifier of the SHA-256 digest of a fixed prefix and the
/// whole seed: it is the same for the same seed, and shows the digest.
pub proof fn law_session_of_a_seed(seed: &str, h: &Vec<u8>, id: String, r: String)
    requires
        call_ensures(derive_session_uuid, (seed,), r),
        call_ensures(format_uuid, (h,), id),
        h@ == sha256_digest(encode_utf8("antigravity-session-v1:"@) + encode_utf8(seed@)),
    ensures
        r@ == id@,
        r@ == session_uuid(seed@),
{
}

} // verus!
