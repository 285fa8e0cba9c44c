//! What log lines may show: masked addresses and messages without credentials.

use vstd::prelude::*;
use vstd::utf8::{encode_scalar, encode_utf8};

use crate::credentials::{hidden, hide_credentials};
use crate::hiding::law_hiding_again_changes_nothing;
use crate::text::{
    find_char, first_chars, first_pos, join2, join4, lemma_first_pos, prefix, to_chars,
};

verus! {

// ----- Mail addresses -----

/// A mail address as logs show it: three characters of the local part and two
/// of the domain. A text without `@` keeps five characters.
pub open spec fn masked(email: Seq<char>) -> Seq<char> {
    let at = first_pos(email, '@');
    if at < email.len() {
        first_chars(email.take(at), 3) + "***@"@ + first_chars(email.skip(at + 1), 2) + "***"@
    } else {
        first_chars(email, 5) + "***"@
    }
}

/// Masks a mail address: `userexample@gmail.com` becomes `use***@gm***`.
pub fn mask_email(email: &str) -> (r: String)
    ensures
        r@ == masked(email@),
{
    let n: usize = email.unicode_len();
    let at: usize = find_char(email, '@');
    if at < n {
        let local = email.substring_char(0, at);
        let domain = email.substring_char(at + 1, n);
        assert(local@ =~= email@.take(at as int));
        assert(domain@ =~= email@.skip(at + 1));
        join4(prefix(local, 3), "***@", prefix(domain, 2), "***")
    } else {
        join2(prefix(email, 5), "***")
    }
}

// ----- Messages -----

/// How many bytes a character takes in UTF-8.
pub open spec fn char_width(c: char) -> int {
    encode_scalar(c as u32).len() as int
}

/// How many bytes a character takes in UTF-8.
fn utf8_width(c: char) -> (r: usize)
    ensures
        r == char_width(c),
        1 <= r <= 4,
{
    let u: u32 = c as u32;
    if u < 0x80 {
        1
    } else if u < 0x800 {
        2
    } else if u < 0x10000 {
        3
    } else {
        4
    }
}

/// As many whole characters from the front as fit `max` bytes.
pub open spec fn clipped(s: Seq<char>, max: int) -> Seq<char>
    decreases s.len(),
{
    if s.len() > 0 && char_width(s[0]) <= max {
        seq![s[0]] + clipped(s.drop_first(), max - char_width(s[0]))
    } else {
        Seq::empty()
    }
}

/// As many whole characters from the front as fit `max` bytes.
pub fn safe_truncate_str(s: &str, max: usize) -> (r: &str)
    ensures
        r@ == clipped(s@, max as int),
{
    let x = to_chars(s);
    let n: usize = x.len();
    let mut i: usize = 0;
    let mut left: usize = max;
    assert(s@.skip(0) =~= s@);
    assert(s@.take(0) + clipped(s@, max as int) =~= clipped(s@, max as int));
    while i < n
        invariant
            i <= n,
            n == x.len(),
            x@ == s@,
            s@.take(i as int) + clipped(s@.skip(i as int), left as int) == clipped(
                s@,
                max as int,
            ),
        decreases n - i,
    {
        let w: usize = utf8_width(x[i]);
        let ghost rest = s@.skip(i as int);
        assert(rest[0] == x@[i as int]);
        if w > left {
            assert(s@.take(i as int) + Seq::<char>::empty() =~= s@.subrange(0, i as int));
            return s.substring_char(0, i);
        }
        assert(rest.drop_first() =~= s@.skip(i + 1));
        assert(s@.take(i as int) + (seq![rest[0]] + clipped(rest.drop_first(), left - w))
            =~= s@.take(i + 1) + clipped(s@.skip(i + 1), left - w));
        left = left - w;
        i = i + 1;
    }
    assert(s@.take(n as int) + Seq::<char>::empty() =~= s@.subrange(0, n as int));
    s.substring_char(0, n)
}

/// How many bytes of a message are logged.
pub const MAX_LOG_BYTES: usize = 1000;

/// A message cut to the length that is logged.
pub open spec fn capped(s: Seq<char>) -> Seq<char> {
    if encode_utf8(s).len() > MAX_LOG_BYTES {
        clipped(s, MAX_LOG_BYTES as int) + "... (truncated)"@
    } else {
        s
    }
}

/// Cuts a message to the length that is logged, between characters.
pub fn cap_log_text(s: &str) -> (r: String)
    ensures
        r@ == capped(s@),
{
    if s.as_bytes().len() > MAX_LOG_BYTES {
        join2(safe_truncate_str(s, MAX_LOG_BYTES), "... (truncated)")
    } else {
        s.to_string()
    }
}

/// A message as it is logged: without credentials, and cut where it is too long.
pub open spec fn sanitized(text: Seq<char>) -> Seq<char> {
    capped(hidden(text))
}

/// Makes an error message fit for the log: no bearer tokens, no values of
/// sensitive keys, quoted or not, and no more than [`MAX_LOG_BYTES`] bytes of it.
pub fn sanitize_error_for_log(error_text: &str) -> (r: String)
    ensures
        r@ == sanitized(error_text@),
{
    let redacted = hide_credentials(error_text);
    cap_log_text(redacted.as_str())
}

// ----- Laws -----

/// A masked address shows three characters of the local part and two of the
/// domain at most, and nothing else of a long address.
pub proof fn law_mask_is_short(email: Seq<char>)
    ensures
        masked(email).len() <= 12,
        email.contains('@') ==> masked(email).contains('@'),
{
    reveal_strlit("***@");
    reveal_strlit("***");
    lemma_first_pos(email, '@');
    let at = first_pos(email, '@');
    if at < email.len() {
        let n = first_chars(email.take(at), 3).len() as int;
        assert(masked(email)[n + 3] == '@');
    }
}

proof fn lemma_encoded_length(a: Seq<char>, b: Seq<char>)
    ensures
        encode_utf8(a + b).len() == encode_utf8(a).len() + encode_utf8(b).len(),
    decreases a.len(),
{
    if a.len() == 0 {
        assert(a + b =~= b);
    } else {
        assert((a + b).drop_first() =~= a.drop_first() + b);
        lemma_encoded_length(a.drop_first(), b);
    }
}

/// A cut text is the longest beginning of the text that fits.
pub proof fn law_cut_is_longest_that_fits(s: Seq<char>, max: int)
    requires
        0 <= max,
    ensures
        clipped(s, max).len() <= s.len(),
        clipped(s, max) == s.take(clipped(s, max).len() as int),
        encode_utf8(clipped(s, max)).len() <= max,
        clipped(s, max).len() < s.len() ==> encode_utf8(
            s.take(clipped(s, max).len() as int + 1),
        ).len() > max,
    decreases s.len(),
{
    let n = clipped(s, max).len() as int;
    if s.len() > 0 && char_width(s[0]) <= max {
        let t = s.drop_first();
        let left = max - char_width(s[0]);
        law_cut_is_longest_that_fits(t, left);
        assert(clipped(s, max) =~= s.take(n));
        assert(s.take(n).drop_first() =~= t.take(n - 1));
        if n < s.len() {
            assert(s.take(n + 1).drop_first() =~= t.take(n));
        }
    } else {
        assert(clipped(s, max) =~= s.take(0));
        if s.len() > 0 {
            let one = s.take(1);
            assert(one.drop_first() =~= Seq::<char>::empty());
            assert(encode_utf8(one.drop_first()).len() == 0);
            assert(encode_utf8(one).len() == char_width(s[0]));
        }
    }
}

/// However long a message is, its log line is short.
pub proof fn law_log_line_is_short(text: Seq<char>)
    ensures
        encode_utf8(sanitized(text)).len() <= MAX_LOG_BYTES + 15,
{
    let s = hidden(text);
    law_cut_is_longest_that_fits(s, MAX_LOG_BYTES as int);
    lemma_encoded_length(clipped(s, MAX_LOG_BYTES as int), "... (truncated)"@);
    lemma_mark_length();
}

proof fn lemma_mark_length()
    ensures
        encode_utf8("... (truncated)"@).len() == 15,
{
    reveal_strlit("... (truncated)");
    lemma_ascii_length("... (truncated)"@);
}

proof fn lemma_ascii_length(s: Seq<char>)
    requires
        forall|j: int| 0 <= j < s.len() ==> (#[trigger] s[j] as u32) < 0x80,
    ensures
        encode_utf8(s).len() == s.len(),
    decreases s.len(),
{
    if s.len() > 0 {
        assert((s[0] as u32) < 0x80);
        lemma_ascii_length(s.drop_first());
    }
}

/// A log line that is within the length is logged as it is.
pub proof fn law_log_lines_stay(text: Seq<char>)
    requires
        encode_utf8(sanitized(text)).len() <= MAX_LOG_BYTES,
    ensures
        sanitized(sanitized(text)) == sanitized(text),
{
    let s = hidden(text);
    law_hiding_again_changes_nothing(text);
    if encode_utf8(s).len() > MAX_LOG_BYTES {
        let cut = clipped(s, MAX_LOG_BYTES as int);
        law_cut_is_longest_that_fits(s, MAX_LOG_BYTES as int);
        lemma_encoded_length(cut, "... (truncated)"@);
        lemma_mark_length();
        if cut.len() < s.len() {
            let next = s[cut.len() as int];
            assert(s.take(cut.len() as int + 1) =~= cut + seq![next]);
            lemma_encoded_length(cut, seq![next]);
            lemma_one_character(next);
        } else {
            assert(cut =~= s);
        }
    }
}

proof fn lemma_one_character(c: char)
    ensures
        encode_utf8(seq![c]).len() <= 4,
{
    assert(seq![c].drop_first() =~= Seq::<char>::empty());
    assert(encode_utf8(seq![c].drop_first()).len() == 0);
}

/// Of an address, three characters before the first `@` and two behind it are shown, or as
/// many as there are; of a text without one, five. `p` is the place of the first `@`, or
/// the length.
pub proof fn law_what_masks_show(email: &str, p: int, r: String)
    requires
        call_ensures(mask_email, (email,), r),
        0 <= p <= email@.len(),
        forall|j: int| 0 <= j < p ==> #[trigger] email@[j] != '@',
        p < email@.len() ==> email@[p] == '@',
    ensures
        p < email@.len() ==> r@ == email@.subrange(
            0,
            if p < 3 {
                p
            } else {
                3
            },
        ) + "***@"@ + email@.subrange(
            p + 1,
            if email@.len() < p + 3 {
                email@.len() as int
            } else {
                p + 3
            },
        ) + "***"@,
        p == email@.len() ==> r@ == email@.subrange(
            0,
            if p < 5 {
                p
            } else {
                5
            },
        ) + "***"@,
{
    let t = email@;
    lemma_first_pos(t, '@');
    let q = first_pos(t, '@');
    if q < p {
        assert(t[q] != '@');
    }
    if p < t.len() {
        if q > p {
            assert(t[p] == '@');
        }
        assert(first_chars(t.take(p), 3) =~= t.subrange(
            0,
            if p < 3 {
                p
            } else {
                3
            },
        ));
        assert(first_chars(t.skip(p + 1), 2) =~= t.subrange(
            p + 1,
            if t.len() < p + 3 {
                t.len() as int
            } else {
                p + 3
            },
        ));
    } else {
        assert(first_chars(t, 5) =~= t.subrange(
            0,
            if p < 5 {
                p
            } else {
                5
            },
        ));
    }
}

/// A cut text is a beginning of the text that fits, and with one character more it would
/// not.
pub proof fn law_cuts(s: &str, max: usize, r: &str)
    requires
        call_ensures(safe_truncate_str, (s, max), r),
    ensures
        r@.len() <= s@.len(),
        r@ == s@.subrange(0, r@.len() as int),
        encode_utf8(r@).len() <= max,
        r@.len() < s@.len() ==> encode_utf8(s@.subrange(0, r@.len() as int + 1)).len() > max,
{
    law_cut_is_longest_that_fits(s@, max as int);
    assert(s@.take(r@.len() as int) =~= s@.subrange(0, r@.len() as int));
    if r@.len() < s@.len() {
        assert(s@.take(r@.len() as int + 1) =~= s@.subrange(0, r@.len() as int + 1));
    }
}

/// A message of up to 1000 bytes is logged as it is shown without its credentials. Of a
/// longer one the most that fits 1000 bytes is logged, and that it was cut. `shown` is
/// what is shown, and `part` what fits of it.
pub proof fn law_log_lines(
    text: &str,
    hidden_text: String,
    shown: &str,
    part: &str,
    cut: String,
    r: String,
)
    requires
        call_ensures(sanitize_error_for_log, (text,), r),
        call_ensures(hide_credentials, (text,), hidden_text),
        shown@ == hidden_text@,
        call_ensures(safe_truncate_str, (shown, 1000usize), part),
        call_ensures(cap_log_text, (shown,), cut),
    ensures
        encode_utf8(shown@).len() <= 1000 ==> r@ == shown@,
        encode_utf8(shown@).len() > 1000 ==> r@ == part@ + "... (truncated)"@,
        cut@ == r@,
{
}

} // verus!
