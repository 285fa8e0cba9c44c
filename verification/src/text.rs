//! Text as sequences of characters: trimming, splitting, searching, comparing.

use vstd::prelude::*;

verus! {

// ----- Characters -----

/// The characters with the Unicode property `White_Space`.
pub open spec fn is_space(c: char) -> bool {
    ||| '\u{9}' <= c <= '\u{d}'
    ||| c == '\u{20}'
    ||| c == '\u{85}'
    ||| c == '\u{a0}'
    ||| c == '\u{1680}'
    ||| '\u{2000}' <= c <= '\u{200a}'
    ||| c == '\u{2028}'
    ||| c == '\u{2029}'
    ||| c == '\u{202f}'
    ||| c == '\u{205f}'
    ||| c == '\u{3000}'
}

/// Whether `c` is white space.
pub fn is_whitespace(c: char) -> (r: bool)
    ensures
        r == is_space(c),
{
    ('\u{9}' <= c && c <= '\u{d}') || c == '\u{20}' || c == '\u{85}' || c == '\u{a0}' || c
        == '\u{1680}' || ('\u{2000}' <= c && c <= '\u{200a}') || c == '\u{2028}' || c == '\u{2029}'
        || c == '\u{202f}' || c == '\u{205f}' || c == '\u{3000}'
}

/// `c` with an ASCII capital replaced by its small letter.
pub open spec fn ascii_lower(c: char) -> char {
    if 'A' <= c <= 'Z' {
        ((c as u32) + 32) as char
    } else {
        c
    }
}

/// Each character of `s` with ASCII capitals replaced by small letters.
pub open spec fn ascii_lower_all(s: Seq<char>) -> Seq<char> {
    s.map_values(|c: char| ascii_lower(c))
}

/// The characters of `s`, in order.
pub fn to_chars(s: &str) -> (r: Vec<char>)
    ensures
        r@ == s@,
{
    let mut out: Vec<char> = Vec::new();
    for c in it: s.chars()
        invariant
            it.seq() == s@,
            out@ == s@.take(it.index()),
    {
        out.push(c);
    }
    out
}

// ----- Comparing -----

/// Whether `a` and `b` are the same text.
pub fn str_eq(a: &str, b: &str) -> (r: bool)
    ensures
        r == (a@ == b@),
{
    let x = to_chars(a);
    let y = to_chars(b);
    if x.len() != y.len() {
        return false;
    }
    let mut i: usize = 0;
    while i < x.len()
        invariant
            i <= x.len(),
            x.len() == y.len(),
            x@ == a@,
            y@ == b@,
            forall|j: int| 0 <= j < i ==> x@[j] == y@[j],
        decreases x.len() - i,
    {
        if x[i] != y[i] {
            return false;
        }
        i = i + 1;
    }
    assert(x@ =~= y@);
    true
}

/// The small letter of an ASCII capital, any other character unchanged.
fn lower_char(c: char) -> (r: char)
    ensures
        r == ascii_lower(c),
{
    if 'A' <= c && c <= 'Z' {
        (c as u8 + 32) as char
    } else {
        c
    }
}

/// Whether `a` and `b` differ in the case of ASCII letters at most.
pub fn eq_ignore_ascii_case(a: &str, b: &str) -> (r: bool)
    ensures
        r == (ascii_lower_all(a@) == ascii_lower_all(b@)),
{
    let x = to_chars(a);
    let y = to_chars(b);
    if x.len() != y.len() {
        assert(ascii_lower_all(a@).len() != ascii_lower_all(b@).len());
        return false;
    }
    let mut i: usize = 0;
    while i < x.len()
        invariant
            i <= x.len(),
            x.len() == y.len(),
            x@ == a@,
            y@ == b@,
            forall|j: int| 0 <= j < i ==> ascii_lower(x@[j]) == ascii_lower(y@[j]),
        decreases x.len() - i,
    {
        if lower_char(x[i]) != lower_char(y[i]) {
            assert(ascii_lower_all(a@)[i as int] != ascii_lower_all(b@)[i as int]);
            return false;
        }
        i = i + 1;
    }
    assert(ascii_lower_all(a@) =~= ascii_lower_all(b@));
    true
}

/// `a` comes after `b` in lexicographic order of code points: past a common
/// prefix `a` goes on with a greater character, or `b` has ended.
pub open spec fn lex_after(a: Seq<char>, b: Seq<char>) -> bool {
    exists|i: int| #[trigger] lex_split(a, b, i) && (i == b.len() || a[i] > b[i])
}

/// `a` and `b` agree on their first `i` characters, and `a` has more.
pub open spec fn lex_split(a: Seq<char>, b: Seq<char>, i: int) -> bool {
    &&& 0 <= i < a.len()
    &&& i <= b.len()
    &&& forall|j: int| 0 <= j < i ==> a[j] == b[j]
}

/// Whether `a` comes after `b` in lexicographic order.
pub fn str_after(a: &str, b: &str) -> (r: bool)
    ensures
        r == lex_after(a@, b@),
{
    let x = to_chars(a);
    let y = to_chars(b);
    let mut i: usize = 0;
    while i < x.len() && i < y.len()
        invariant
            i <= x.len(),
            i <= y.len(),
            x@ == a@,
            y@ == b@,
            forall|j: int| 0 <= j < i ==> x@[j] == y@[j],
        decreases x.len() - i,
    {
        if x[i] != y[i] {
            proof {
                assert(lex_split(a@, b@, i as int));
                assert forall|k: int| #[trigger] lex_split(a@, b@, k) && k != i implies !(k
                    == b@.len() || a@[k] > b@[k]) by {
                    if k > i {
                        assert(a@[i as int] == b@[i as int]);
                    }
                }
            }
            return x[i] > y[i];
        }
        i = i + 1;
    }
    if i < x.len() {
        assert(lex_split(a@, b@, i as int));
        true
    } else {
        false
    }
}

// ----- Searching -----

/// How many characters precede the first `c`; the length where there is none.
pub open spec fn first_pos(s: Seq<char>, c: char) -> int
    decreases s.len(),
{
    if s.len() == 0 || s[0] == c {
        0
    } else {
        1 + first_pos(s.drop_first(), c)
    }
}

/// What `first_pos` finds: the first place that holds `c`.
pub proof fn lemma_first_pos(s: Seq<char>, c: char)
    ensures
        0 <= first_pos(s, c) <= s.len(),
        forall|j: int| 0 <= j < first_pos(s, c) ==> s[j] != c,
        first_pos(s, c) < s.len() ==> s[first_pos(s, c)] == c,
        first_pos(s, c) < s.len() <==> s.contains(c),
    decreases s.len(),
{
    if s.len() != 0 && s[0] != c {
        let t = s.drop_first();
        lemma_first_pos(t, c);
        assert forall|j: int| 0 <= j < first_pos(s, c) implies s[j] != c by {
            if j > 0 {
                assert(t[j - 1] == s[j]);
            }
        }
        if s.contains(c) {
            let k = choose|k: int| 0 <= k < s.len() && s[k] == c;
            assert(t[k - 1] == c);
        }
    }
    if first_pos(s, c) < s.len() {
        assert(s[first_pos(s, c)] == c);
    }
}

/// Where the first `c` stands, counted in characters; the length where there is none.
pub fn find_char(s: &str, c: char) -> (r: usize)
    ensures
        r == first_pos(s@, c),
        r <= s@.len(),
        r < s@.len() <==> s@.contains(c),
{
    let x = to_chars(s);
    let mut i: usize = 0;
    proof {
        lemma_first_pos(s@, c);
    }
    while i < x.len() && x[i] != c
        invariant
            i <= x.len(),
            x@ == s@,
            forall|j: int| 0 <= j < i ==> x@[j] != c,
        decreases x.len() - i,
    {
        i = i + 1;
    }
    proof {
        let p = first_pos(s@, c);
        if p < i {
            assert(x@[p] == c);
        }
        if i < p {
            assert(x@[i as int] == c);
        }
    }
    i
}

/// `needle` stands in `hay` at some place.
pub open spec fn has_text(hay: Seq<char>, needle: Seq<char>) -> bool {
    exists|i: int| #[trigger] text_at(hay, needle, i)
}

/// `needle` stands in `hay` at place `i`.
pub open spec fn text_at(hay: Seq<char>, needle: Seq<char>, i: int) -> bool {
    0 <= i <= hay.len() - needle.len() && hay.subrange(i, i + needle.len()) == needle
}

/// Whether `needle` stands in `hay`.
pub fn contains_str(hay: &str, needle: &str) -> (r: bool)
    ensures
        r == has_text(hay@, needle@),
{
    let x = to_chars(hay);
    let y = to_chars(needle);
    if y.len() > x.len() {
        return false;
    }
    let last: usize = x.len() - y.len();
    let mut i: usize = 0;
    while i <= last
        invariant
            x@ == hay@,
            y@ == needle@,
            y.len() <= x.len(),
            last == x.len() - y.len(),
            i <= last + 1,
            forall|k: int| 0 <= k < i ==> !#[trigger] text_at(hay@, needle@, k),
        decreases last + 1 - i,
    {
        let mut j: usize = 0;
        while j < y.len() && x[i + j] == y[j]
            invariant
                y.len() <= x.len(),
                last == x.len() - y.len(),
                i <= last,
                j <= y.len(),
                forall|k: int| 0 <= k < j ==> x@[i + k] == y@[k],
            decreases y.len() - j,
        {
            j = j + 1;
        }
        if j == y.len() {
            assert(hay@.subrange(i as int, i + y@.len()) =~= needle@);
            assert(text_at(hay@, needle@, i as int));
            return true;
        }
        assert(hay@.subrange(i as int, i + y@.len())[j as int] != needle@[j as int]);
        i = i + 1;
    }
    false
}

// ----- Cutting -----

/// `s` without its leading characters equal to `c`.
pub open spec fn strip_leading(s: Seq<char>, c: char) -> Seq<char>
    decreases s.len(),
{
    if s.len() > 0 && s[0] == c {
        strip_leading(s.drop_first(), c)
    } else {
        s
    }
}

/// `s` without its leading characters equal to `c`.
pub fn trim_start_char(s: &str, c: char) -> (r: &str)
    ensures
        r@ == strip_leading(s@, c),
{
    let x = to_chars(s);
    let n: usize = x.len();
    let mut i: usize = 0;
    assert(s@.skip(0) =~= s@);
    while i < n && x[i] == c
        invariant
            i <= n,
            n == x.len(),
            x@ == s@,
            strip_leading(s@, c) == strip_leading(s@.skip(i as int), c),
        decreases n - i,
    {
        assert(s@.skip(i as int).drop_first() =~= s@.skip(i + 1));
        i = i + 1;
    }
    assert(s@.subrange(i as int, n as int) =~= s@.skip(i as int));
    s.substring_char(i, n)
}

/// `s` without its leading white space.
pub open spec fn trim_front(s: Seq<char>) -> Seq<char>
    decreases s.len(),
{
    if s.len() > 0 && is_space(s[0]) {
        trim_front(s.drop_first())
    } else {
        s
    }
}

/// `s` without its trailing white space.
pub open spec fn trim_back(s: Seq<char>) -> Seq<char>
    decreases s.len(),
{
    if s.len() > 0 && is_space(s.last()) {
        trim_back(s.drop_last())
    } else {
        s
    }
}

/// `s` without leading and trailing white space.
pub open spec fn trimmed(s: Seq<char>) -> Seq<char> {
    trim_back(trim_front(s))
}

/// `s` without leading and trailing white space.
pub fn trim(s: &str) -> (r: &str)
    ensures
        r@ == trimmed(s@),
{
    let x = to_chars(s);
    let n: usize = x.len();
    let mut i: usize = 0;
    assert(s@.skip(0) =~= s@);
    while i < n && is_whitespace(x[i])
        invariant
            i <= n,
            n == x.len(),
            x@ == s@,
            trim_front(s@) == trim_front(s@.skip(i as int)),
        decreases n - i,
    {
        assert(s@.skip(i as int).drop_first() =~= s@.skip(i + 1));
        i = i + 1;
    }
    let ghost front = s@.skip(i as int);
    assert(trim_front(s@) == front);
    let mut e: usize = n;
    assert(s@.subrange(i as int, n as int) =~= front);
    while e > i && is_whitespace(x[e - 1])
        invariant
            i <= e <= n,
            n == x.len(),
            x@ == s@,
            trim_back(front) == trim_back(s@.subrange(i as int, e as int)),
        decreases e - i,
    {
        assert(s@.subrange(i as int, e as int).drop_last() =~= s@.subrange(i as int, e - 1));
        e = e - 1;
    }
    s.substring_char(i, e)
}

/// The first `n` characters of `s`, or all of them where there are fewer.
pub open spec fn first_chars(s: Seq<char>, n: int) -> Seq<char> {
    if s.len() <= n {
        s
    } else {
        s.take(n)
    }
}

/// The first `n` characters of `s`, or all of them where there are fewer.
pub fn prefix(s: &str, n: usize) -> (r: &str)
    ensures
        r@ == first_chars(s@, n as int),
{
    let len: usize = s.unicode_len();
    let e: usize = if len <= n { len } else { n };
    assert(s@.subrange(0, e as int) =~= first_chars(s@, n as int));
    s.substring_char(0, e)
}

/// The pieces of `s` between the occurrences of `c`.
pub open spec fn split_by(s: Seq<char>, c: char) -> Seq<Seq<char>>
    decreases s.len(),
    via split_by_decreases
{
    let p = first_pos(s, c);
    if p == s.len() {
        seq![s]
    } else {
        seq![s.take(p)] + split_by(s.skip(p + 1), c)
    }
}

#[via_fn]
proof fn split_by_decreases(s: Seq<char>, c: char) {
    lemma_first_pos(s, c);
}

// ----- Optional texts and results -----

/// The text inside an optional string.
pub open spec fn opt_text(s: Option<String>) -> Option<Seq<char>> {
    match s {
        Some(t) => Some(t@),
        None => None,
    }
}

/// The text inside an optional string slice.
pub open spec fn opt_str_text(s: Option<&str>) -> Option<Seq<char>> {
    match s {
        Some(t) => Some(t@),
        None => None,
    }
}

/// The text inside a result of strings.
pub open spec fn result_text(r: Result<String, String>) -> Result<Seq<char>, Seq<char>> {
    match r {
        Ok(t) => Ok(t@),
        Err(e) => Err(e@),
    }
}

// ----- Joining -----

/// `a` followed by `b`.
pub fn join2(a: &str, b: &str) -> (r: String)
    ensures
        r@ == a@ + b@,
{
    let mut out = a.to_string();
    out.append(b);
    out
}

/// `a`, `b` and `c` in a row.
pub fn join3(a: &str, b: &str, c: &str) -> (r: String)
    ensures
        r@ == a@ + b@ + c@,
{
    let mut out = join2(a, b);
    out.append(c);
    out
}

/// `a`, `b`, `c` and `d` in a row.
pub fn join4(a: &str, b: &str, c: &str, d: &str) -> (r: String)
    ensures
        r@ == a@ + b@ + c@ + d@,
{
    let mut out = join3(a, b, c);
    out.append(d);
    out
}

// ----- Laws -----

proof fn lemma_trim_front(s: Seq<char>) -> (k: int)
    ensures
        0 <= k <= s.len(),
        trim_front(s) == s.skip(k),
        forall|j: int| 0 <= j < k ==> is_space(#[trigger] s[j]),
        k < s.len() ==> !is_space(s[k]),
    decreases s.len(),
{
    if s.len() > 0 && is_space(s[0]) {
        let t = s.drop_first();
        let k = lemma_trim_front(t);
        assert forall|j: int| 0 <= j < k + 1 implies is_space(#[trigger] s[j]) by {
            if j > 0 {
                assert(t[j - 1] == s[j]);
            }
        }
        assert(t.skip(k) =~= s.skip(k + 1));
        k + 1
    } else {
        assert(s.skip(0) =~= s);
        0
    }
}

proof fn lemma_trim_back(s: Seq<char>) -> (k: int)
    ensures
        0 <= k <= s.len(),
        trim_back(s) == s.take(k),
        forall|j: int| k <= j < s.len() ==> is_space(#[trigger] s[j]),
        0 < k ==> !is_space(s[k - 1]),
    decreases s.len(),
{
    if s.len() > 0 && is_space(s.last()) {
        let t = s.drop_last();
        let k = lemma_trim_back(t);
        assert forall|j: int| k <= j < s.len() implies is_space(#[trigger] s[j]) by {
            if j < t.len() {
                assert(t[j] == s[j]);
            }
        }
        assert(t.take(k) =~= s.take(k));
        k
    } else {
        assert(s.take(s.len() as int) =~= s);
        s.len() as int
    }
}

/// Trimming takes off white space at both ends and nothing else: what is left is a
/// part of the text that neither starts nor ends with white space, and all that
/// stands around it is white space.
pub proof fn law_trimming(s: Seq<char>) -> (part: (int, int))
    ensures
        0 <= part.0 <= part.1 <= s.len(),
        trimmed(s) == s.subrange(part.0, part.1),
        forall|j: int| 0 <= j < part.0 ==> is_space(#[trigger] s[j]),
        forall|j: int| part.1 <= j < s.len() ==> is_space(#[trigger] s[j]),
        part.0 < part.1 ==> !is_space(s[part.0]) && !is_space(s[part.1 - 1]),
{
    let a = lemma_trim_front(s);
    let t = s.skip(a);
    let n = lemma_trim_back(t);
    assert(t.take(n) =~= s.subrange(a, a + n));
    assert forall|j: int| a + n <= j < s.len() implies is_space(#[trigger] s[j]) by {
        assert(t[j - a] == s[j]);
    }
    if n > 0 {
        assert(t[n - 1] == s[a + n - 1]);
    }
    (a, a + n)
}

/// A text of which something but white space is left is what is left, where it has no
/// white space at its ends.
pub proof fn law_trimmed_text_stays(s: Seq<char>)
    requires
        s.len() > 0 ==> !is_space(s[0]) && !is_space(s.last()),
    ensures
        trimmed(s) == s,
{
}

/// Trimming leaves nothing of a text exactly where all of it is white space.
pub proof fn law_blank_texts(s: Seq<char>)
    ensures
        trimmed(s).len() == 0 <==> (forall|j: int| 0 <= j < s.len() ==> is_space(#[trigger] s[j])),
{
    let part = law_trimming(s);
    if trimmed(s).len() == 0 {
        assert forall|j: int| 0 <= j < s.len() implies is_space(#[trigger] s[j]) by {}
    }
}

/// Leading characters are stripped one and all, and nothing else: what is left does not
/// start with the character, and only that stood before it.
pub proof fn law_stripping(s: Seq<char>, c: char) -> (k: int)
    ensures
        0 <= k <= s.len(),
        strip_leading(s, c) == s.skip(k),
        forall|j: int| 0 <= j < k ==> #[trigger] s[j] == c,
        k < s.len() ==> s[k] != c,
    decreases s.len(),
{
    if s.len() > 0 && s[0] == c {
        let t = s.drop_first();
        let k = law_stripping(t, c);
        assert forall|j: int| 0 <= j < k + 1 implies #[trigger] s[j] == c by {
            if j > 0 {
                assert(t[j - 1] == s[j]);
            }
        }
        assert(t.skip(k) =~= s.skip(k + 1));
        k + 1
    } else {
        assert(s.skip(0) =~= s);
        0
    }
}

/// The pieces of a text: up to the first separator, and the pieces of the rest; a text
/// without a separator is one piece.
pub proof fn law_pieces(a: Seq<char>, c: char, rest: Seq<char>)
    requires
        !a.contains(c),
    ensures
        split_by(a, c) == seq![a],
        split_by(a + seq![c] + rest, c) == seq![a] + split_by(rest, c),
{
    lemma_first_pos(a, c);
    let t = a + seq![c] + rest;
    lemma_first_pos(t, c);
    assert(t[a.len() as int] == c);
    assert forall|j: int| 0 <= j < a.len() implies t[j] != c by {
        assert(a[j] == t[j]);
        assert(a.contains(a[j]));
    }
    assert(first_pos(t, c) == a.len());
    assert(t.take(a.len() as int) =~= a);
    assert(t.skip(a.len() as int + 1) =~= rest);
}

/// Only the case of the 26 capitals changes, to that of the same letter.
pub proof fn law_small_letters(s: Seq<char>, i: int)
    requires
        0 <= i < s.len(),
    ensures
        ascii_lower_all(s).len() == s.len(),
        65 <= s[i] as u32 <= 90 ==> ascii_lower_all(s)[i] as u32 == s[i] as u32 + 32,
        !(65 <= s[i] as u32 <= 90) ==> ascii_lower_all(s)[i] == s[i],
{
}

/// As many characters from the front as there are, up to `n`.
pub proof fn law_front_of_a_text(s: Seq<char>, n: int)
    requires
        0 <= n,
    ensures
        n <= s.len() ==> first_chars(s, n) == s.subrange(0, n),
        n >= s.len() ==> first_chars(s, n) == s,
{
    if n <= s.len() {
        assert(s.take(n) =~= s.subrange(0, n));
        if s.len() <= n {
            assert(s.subrange(0, n) =~= s);
        }
    }
}

/// The white space of Unicode.
pub proof fn law_white_space(c: char)
    ensures
        is_space(c) <==> ({
            let u = c as u32;
            ||| 9 <= u <= 13 || u == 32 || u == 133 || u == 160 || u == 5760
            ||| 8192 <= u <= 8202 || u == 8232 || u == 8233 || u == 8239 || u == 8287 || u == 12288
        }),
{
}

/// Where two texts first differ, the greater character makes the later text; a text that
/// goes on where the other ends comes after it.
pub proof fn law_order_of_texts(a: Seq<char>, b: Seq<char>, i: int)
    requires
        0 <= i <= a.len(),
        i <= b.len(),
        forall|j: int| 0 <= j < i ==> #[trigger] a[j] == b[j],
    ensures
        i < a.len() && i < b.len() && a[i] != b[i] ==> lex_after(a, b) == (a[i] > b[i]),
        i < a.len() && i == b.len() ==> lex_after(a, b) && !lex_after(b, a),
        i == a.len() && i == b.len() ==> !lex_after(a, b),
{
    if i < a.len() {
        assert(lex_split(a, b, i));
    }
    assert forall|k: int| #[trigger] lex_split(a, b, k) && k < i implies !(k == b.len() || a[k]
        > b[k]) by {
        assert(a[k] == b[k]);
    }
    assert forall|k: int| #[trigger] lex_split(b, a, k) && k < i implies !(k == a.len() || b[k]
        > a[k]) by {
        assert(a[k] == b[k]);
    }
    if i < a.len() && i < b.len() {
        assert forall|k: int| #[trigger] lex_split(a, b, k) && k > i implies a[i] == b[i] by {}
    }
}

/// A text stands in another exactly where it can be cut out of it.
pub proof fn law_text_is_found(hay: Seq<char>, needle: Seq<char>)
    ensures
        has_text(hay, needle) <==> exists|i: int|
            0 <= i && i + needle.len() <= hay.len() && #[trigger] hay.subrange(
                i,
                i + needle.len(),
            ) == needle,
        forall|a: Seq<char>, b: Seq<char>| #[trigger] has_text(a + needle + b, needle),
{
    if has_text(hay, needle) {
        let i = choose|i: int| #[trigger] text_at(hay, needle, i);
        assert(hay.subrange(i, i + needle.len()) == needle);
    }
    if exists|i: int|
        0 <= i && i + needle.len() <= hay.len() && #[trigger] hay.subrange(i, i + needle.len())
            == needle {
        let i = choose|i: int|
            0 <= i && i + needle.len() <= hay.len() && #[trigger] hay.subrange(
                i,
                i + needle.len(),
            ) == needle;
        assert(text_at(hay, needle, i));
    }
    assert forall|a: Seq<char>, b: Seq<char>| #[trigger] has_text(a + needle + b, needle) by {
        let t = a + needle + b;
        assert(t.subrange(a.len() as int, a.len() as int + needle.len()) =~= needle);
        assert(text_at(t, needle, a.len() as int));
    }
}

/// Texts are taken apart, compared and put together as a whole, character by character.
pub proof fn law_whole_texts(
    a: &str,
    b: &str,
    chars: Vec<char>,
    equal: bool,
    alike: bool,
    after: bool,
    both: String,
)
    requires
        call_ensures(to_chars, (a,), chars),
        call_ensures(str_eq, (a, b), equal),
        call_ensures(eq_ignore_ascii_case, (a, b), alike),
        call_ensures(str_after, (a, b), after),
        call_ensures(join2, (a, b), both),
    ensures
        chars@ == a@,
        equal <==> a@ == b@,
        alike <==> a@.len() == b@.len() && forall|i: int|
            0 <= i < a@.len() ==> #[trigger] ascii_lower(a@[i]) == ascii_lower(b@[i]),
        after <==> lex_after(a@, b@),
        both@ == a@ + b@,
{
    let x = ascii_lower_all(a@);
    let y = ascii_lower_all(b@);
    if alike {
        assert(x.len() == y.len());
        assert forall|i: int| 0 <= i < a@.len() implies #[trigger] ascii_lower(a@[i])
            == ascii_lower(b@[i]) by {
            assert(x[i] == y[i]);
        }
    }
    if a@.len() == b@.len() && forall|i: int|
        0 <= i < a@.len() ==> #[trigger] ascii_lower(a@[i]) == ascii_lower(b@[i]) {
        assert forall|i: int| 0 <= i < x.len() implies x[i] == y[i] by {
            assert(ascii_lower(a@[i]) == ascii_lower(b@[i]));
        }
        assert(x =~= y);
    }
}

/// Where a character first stands, whether a text stands in another, and what is left when
/// the ends are taken off.
pub proof fn law_parts_of_texts(
    s: &str,
    c: char,
    needle: &str,
    n: usize,
    at: usize,
    found: bool,
    stripped: &str,
    bare: &str,
    front: &str,
    space: bool,
)
    requires
        call_ensures(find_char, (s, c), at),
        call_ensures(contains_str, (s, needle), found),
        call_ensures(trim_start_char, (s, c), stripped),
        call_ensures(trim, (s,), bare),
        call_ensures(prefix, (s, n), front),
        call_ensures(is_whitespace, (c,), space),
    ensures
        at <= s@.len(),
        forall|j: int| 0 <= j < at ==> s@[j] != c,
        at < s@.len() ==> s@[at as int] == c,
        found <==> has_text(s@, needle@),
        stripped@ == strip_leading(s@, c),
        bare@ == trimmed(s@),
        n <= s@.len() ==> front@ == s@.subrange(0, n as int),
        n > s@.len() ==> front@ == s@,
        space <==> is_space(c),
{
    lemma_first_pos(s@, c);
    law_front_of_a_text(s@, n as int);
}

/// Three and four texts in a row are all of them, in order.
pub proof fn law_texts_in_a_row(a: &str, b: &str, c: &str, d: &str, three: String, four: String)
    requires
        call_ensures(join3, (a, b, c), three),
        call_ensures(join4, (a, b, c, d), four),
    ensures
        three@ == a@ + b@ + c@,
        four@ == three@ + d@,
{
}

/// Optional texts and results hold the text that they hold.
pub proof fn law_texts_inside(s: String, t: &str)
    ensures
        opt_text(Some(s)) == Some(s@),
        opt_text(None) is None,
        opt_str_text(Some(t)) == Some(t@),
        opt_str_text(None) is None,
        result_text(Ok(s)) == Ok::<Seq<char>, Seq<char>>(s@),
        result_text(Err(s)) == Err::<Seq<char>, Seq<char>>(s@),
{
}

} // verus!
