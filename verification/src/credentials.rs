//! Credentials in messages: where they stand, and messages without them.

use regex::Regex;
use vstd::prelude::*;

use crate::text::{ascii_lower, is_space};

verus! {

// ----- Shapes -----

/// A sensitive key with a value: the key, a quote that may close it, a separator,
/// and the value.
pub const KEY_PATTERN: &'static str = r#"(?i)(access_token|refresh_token|id_token|authorization|api_key|secret|password|proxy_url|http_proxy|https_proxy)(?:\\*["'])?\s*[:=]\s*(?:"(?:[^"\\]|\\(?s:.))+|'(?:[^'\\]|\\(?s:.))+|\\+"[^"]+|\\+'[^']+|[^"'\\\s,}\]]+)"#;

/// A bearer token: the word and the token, which may be quoted.
pub const BEARER_PATTERN: &'static str = r#"(?i)(bearer\s+)(?:"(?:[^"\\]|\\(?s:.))+|'(?:[^'\\]|\\(?s:.))+|\\+"[^"]+|\\+'[^']+|[^"'\\\s,}\]]+)"#;

/// An authorization with a scheme: the key, a separator, the name of the scheme and
/// the credentials.
pub const SCHEME_PATTERN: &'static str = r#"(?i)(authorization)(?:\\*["'])?\s*[:=]\s*(?:basic|bearer)\s+(?:"(?:[^"\\]|\\(?s:.))+|'(?:[^'\\]|\\(?s:.))+|\\+"[^"]+|\\+'[^']+|[^"'\\\s,}\]]+)"#;

/// The keys whose values are not shown.
pub open spec fn is_sensitive_key(key: Seq<char>) -> bool {
    ||| key == "access_token"@
    ||| key == "refresh_token"@
    ||| key == "id_token"@
    ||| key == "authorization"@
    ||| key == "api_key"@
    ||| key == "secret"@
    ||| key == "password"@
    ||| key == "proxy_url"@
    ||| key == "http_proxy"@
    ||| key == "https_proxy"@
}

/// The small letter that a character matches where case does not count: those
/// of the ASCII capitals, of the long s and of the Kelvin sign.
pub open spec fn fold(c: char) -> char {
    if c == '\u{17f}' {
        's'
    } else if c == '\u{212a}' {
        'k'
    } else {
        ascii_lower(c)
    }
}

/// The word `w` stands at `i`, in whatever case.
pub open spec fn word_at(t: Seq<char>, i: int, w: Seq<char>) -> bool {
    0 <= i && i + w.len() <= t.len() && t.subrange(i, i + w.len()).map_values(|c: char| fold(c))
        == w
}

/// The characters that a value without quotes can be made of.
pub open spec fn is_value_char(c: char) -> bool {
    !is_space(c) && c != '"' && c != '\'' && c != '\\' && c != ',' && c != '}' && c != ']'
}

pub open spec fn is_quote(c: char) -> bool {
    c == '"' || c == '\''
}

/// Where the white space that starts at `i` ends.
pub open spec fn space_end(t: Seq<char>, i: int) -> int
    decreases t.len() - i,
{
    if 0 <= i < t.len() && is_space(t[i]) {
        space_end(t, i + 1)
    } else {
        i
    }
}

/// Where the backslashes that start at `i` end.
pub open spec fn backslash_end(t: Seq<char>, i: int) -> int
    decreases t.len() - i,
{
    if 0 <= i < t.len() && t[i] == '\\' {
        backslash_end(t, i + 1)
    } else {
        i
    }
}

/// Where the characters of a value without quotes that start at `i` end.
pub open spec fn run_end(t: Seq<char>, i: int) -> int
    decreases t.len() - i,
{
    if 0 <= i < t.len() && is_value_char(t[i]) {
        run_end(t, i + 1)
    } else {
        i
    }
}

/// Where the first quote `c` from `i` on stands; the end where there is none.
pub open spec fn quote_pos(t: Seq<char>, i: int, c: char) -> int
    decreases t.len() - i,
{
    if 0 <= i < t.len() && t[i] != c {
        quote_pos(t, i + 1, c)
    } else {
        i
    }
}

/// Where the first quote `c` from `i` on stands that no backslash escapes; the
/// end, or a last backslash, where there is none.
pub open spec fn closing_pos(t: Seq<char>, i: int, c: char) -> int
    decreases t.len() - i,
{
    if !(0 <= i < t.len()) || t[i] == c {
        i
    } else if t[i] != '\\' {
        closing_pos(t, i + 1, c)
    } else if i + 1 < t.len() {
        closing_pos(t, i + 2, c)
    } else {
        i
    }
}

/// Where the value at `v` ends; `v` where there is none. A value in quotes goes on
/// to the quote that closes it, whose place is the end; where the opening quote
/// is escaped, to the next quote. A value without quotes goes on as far as its
/// characters do.
pub open spec fn value_end(t: Seq<char>, v: int) -> int {
    if !(0 <= v < t.len()) {
        v
    } else if is_quote(t[v]) {
        let e = closing_pos(t, v + 1, t[v]);
        if e > v + 1 {
            e
        } else {
            v
        }
    } else if t[v] == '\\' {
        let k = backslash_end(t, v);
        if k < t.len() && is_quote(t[k]) && quote_pos(t, k + 1, t[k]) > k + 1 {
            quote_pos(t, k + 1, t[k])
        } else {
            v
        }
    } else {
        run_end(t, v)
    }
}

/// Where the quote that closes a key at `q` ends, escaped or not; `q` where there
/// is none.
pub open spec fn key_quote_end(t: Seq<char>, q: int) -> int {
    let k = backslash_end(t, q);
    if k < t.len() && is_quote(t[k]) {
        k + 1
    } else {
        q
    }
}

/// Where the separator behind a key that ends at `q` stands.
pub open spec fn separator_pos(t: Seq<char>, q: int) -> int {
    space_end(t, key_quote_end(t, q))
}

/// Where the value behind a key that ends at `q` starts.
pub open spec fn value_pos(t: Seq<char>, q: int) -> int {
    space_end(t, separator_pos(t, q) + 1)
}

/// Where the value behind a key that ends at `q` ends.
pub open spec fn value_stop(t: Seq<char>, q: int) -> int {
    value_end(t, value_pos(t, q))
}

/// `t[i..q]` is a sensitive key with a colon or an equals sign and a value behind it.
pub open spec fn assignment_at(t: Seq<char>, i: int, q: int) -> bool {
    &&& 0 <= i <= q <= separator_pos(t, q) < value_pos(t, q) < value_stop(t, q) <= t.len()
    &&& is_sensitive_key(t.subrange(i, q).map_values(|c: char| fold(c)))
    &&& t[separator_pos(t, q)] == ':' || t[separator_pos(t, q)] == '='
}

/// Where the token behind the word at `i` starts.
pub open spec fn token_pos(t: Seq<char>, i: int) -> int {
    space_end(t, i + 6)
}

/// Where the token behind the word at `i` ends.
pub open spec fn token_stop(t: Seq<char>, i: int) -> int {
    value_end(t, token_pos(t, i))
}

/// The word `bearer` stands at `i`, with white space and a token behind it.
pub open spec fn bearer_at(t: Seq<char>, i: int) -> bool {
    &&& word_at(t, i, "bearer"@)
    &&& i + 6 < token_pos(t, i) < token_stop(t, i) <= t.len()
}

/// How long the name of the scheme at `v` is; 0 where there is none.
pub open spec fn scheme_len(t: Seq<char>, v: int) -> int {
    if word_at(t, v, "basic"@) {
        5
    } else if word_at(t, v, "bearer"@) {
        6
    } else {
        0
    }
}

/// Where the credentials behind the scheme start that is the value of the key at `i`.
pub open spec fn scheme_pos(t: Seq<char>, i: int) -> int {
    let v = value_pos(t, i + 13);
    space_end(t, v + scheme_len(t, v))
}

/// Where the credentials behind the scheme end.
pub open spec fn scheme_stop(t: Seq<char>, i: int) -> int {
    value_end(t, scheme_pos(t, i))
}

/// The key `authorization` stands at `i`, its value is the name of a scheme, and
/// credentials stand behind that.
pub open spec fn scheme_at(t: Seq<char>, i: int) -> bool {
    let v = value_pos(t, i + 13);
    &&& word_at(t, i, "authorization"@)
    &&& assignment_at(t, i, i + 13)
    &&& v < v + scheme_len(t, v) < scheme_pos(t, i) < scheme_stop(t, i) <= t.len()
}

/// The three shapes in which a credential stands.
#[derive(Clone, Copy, PartialEq, Eq, Structural)]
pub enum Shape {
    /// A sensitive key with a value.
    Value,
    /// The word `bearer` with a token.
    Bearer,
    /// The key `authorization` with a scheme and credentials.
    Scheme,
}

/// A shape starts at `i`, and what is not shown of it goes from `s` to `e`: of a
/// key, everything behind it; of the word `bearer`, the token.
pub open spec fn shape_at(t: Seq<char>, shape: Shape, i: int, s: int, e: int) -> bool {
    match shape {
        Shape::Value => assignment_at(t, i, s) && e == value_stop(t, s),
        Shape::Bearer => bearer_at(t, i) && s == token_pos(t, i) && e == token_stop(t, i),
        Shape::Scheme => scheme_at(t, i) && s == i + 13 && e == scheme_stop(t, i),
    }
}

/// The character at `j` belongs to a credential.
pub open spec fn is_gone(t: Seq<char>, j: int) -> bool {
    exists|shape: Shape, i: int, s: int, e: int| #[trigger]
        shape_at(t, shape, i, s, e) && s <= j < e
}

/// The value of a sensitive key starts behind a key that ends at `s`.
pub open spec fn value_starts(t: Seq<char>, s: int) -> bool {
    exists|i: int| assignment_at(t, i, s)
}

/// What stands for the credentials that start at `s`.
pub open spec fn mark(t: Seq<char>, s: int) -> Seq<char> {
    if value_starts(t, s) {
        "=<redacted>"@
    } else {
        "<redacted>"@
    }
}

/// What is shown for the character at `j`: the character itself, where it belongs
/// to no credential; a mark, where it is the first of a row that does; nothing for
/// the others of the row.
pub open spec fn shown_at(t: Seq<char>, j: int) -> Seq<char> {
    if !is_gone(t, j) {
        seq![t[j]]
    } else if j == 0 || !is_gone(t, j - 1) {
        mark(t, j)
    } else {
        Seq::empty()
    }
}

/// What is shown of a text from `j` on.
pub open spec fn hidden_from(t: Seq<char>, j: int) -> Seq<char>
    decreases t.len() - j,
{
    if 0 <= j < t.len() {
        shown_at(t, j) + hidden_from(t, j + 1)
    } else {
        Seq::empty()
    }
}

/// A message without credentials.
pub open spec fn hidden(text: Seq<char>) -> Seq<char> {
    hidden_from(text, 0)
}

/// `before`, `head` and `tail` are the parts of a text up to the end of the first
/// of its shapes: what precedes the shape, what is shown of it and what is not.
pub open spec fn first_shape(
    t: Seq<char>,
    shape: Shape,
    before: Seq<char>,
    head: Seq<char>,
    tail: Seq<char>,
) -> bool {
    let i = before.len() as int;
    let s = i + head.len();
    let e = s + tail.len();
    &&& shape_at(t, shape, i, s, e)
    &&& forall|i2: int, s2: int, e2: int| #[trigger] shape_at(t, shape, i2, s2, e2) ==> i <= i2
    &&& before + head + tail == t.take(e)
}

/// No such shape stands in the text.
pub open spec fn no_shape(t: Seq<char>, shape: Shape) -> bool {
    forall|i: int, s: int, e: int| !#[trigger] shape_at(t, shape, i, s, e)
}

/// What is found of a shape: the first one, if there is one.
pub open spec fn is_first_match(
    t: Seq<char>,
    shape: Shape,
    found: Option<(String, String, String)>,
) -> bool {
    match found {
        Some((before, head, tail)) => first_shape(t, shape, before@, head@, tail@),
        None => no_shape(t, shape),
    }
}

// ----- Search -----

/// Calls `regex::Regex::new` and `regex::Regex::captures`. Claimed of them: the
/// three patterns compile, and the match that starts first is found: what
/// precedes it, its first group, and what follows that group in it. Alternatives
/// are tried in their order, and repetitions take as much as they can. Where case
/// does not count, `regex` matches by simple Unicode case folding, and its `\s` is
/// Unicode white space.
#[verifier::external_body]
fn find_first(pattern: &str, text: &str) -> (r: Option<(String, String, String)>)
    requires
        pattern@ == KEY_PATTERN@ || pattern@ == BEARER_PATTERN@ || pattern@ == SCHEME_PATTERN@,
    ensures
        pattern@ == KEY_PATTERN@ ==> is_first_match(text@, Shape::Value, r),
        pattern@ == BEARER_PATTERN@ ==> is_first_match(text@, Shape::Bearer, r),
        pattern@ == SCHEME_PATTERN@ ==> is_first_match(text@, Shape::Scheme, r),
{
    let found = Regex::new(pattern).unwrap().captures(text)?;
    let head = found.get(1)?;
    Some((
        text[..head.start()].to_string(),
        head.as_str().to_string(),
        text[head.end()..found.get(0)?.end()].to_string(),
    ))
}

/// Finds the first of the shapes in a text.
fn find_shape(shape: Shape, text: &str) -> (r: Option<(String, String, String)>)
    ensures
        is_first_match(text@, shape, r),
{
    match shape {
        Shape::Value => find_first(KEY_PATTERN, text),
        Shape::Bearer => find_first(BEARER_PATTERN, text),
        Shape::Scheme => find_first(SCHEME_PATTERN, text),
    }
}

/// The character at `j` belongs to a credential of this shape.
pub open spec fn gone_by(t: Seq<char>, shape: Shape, j: int) -> bool {
    exists|i: int, s: int, e: int| #[trigger] shape_at(t, shape, i, s, e) && s <= j < e
}

/// Notes the characters from `s` to `e` as gone.
fn note_range(gone: &mut Vec<bool>, s: usize, e: usize)
    requires
        s <= e <= old(gone).len(),
    ensures
        final(gone).len() == old(gone).len(),
        forall|j: int|
            0 <= j < final(gone).len() ==> #[trigger] final(gone)@[j] == (old(gone)@[j] || s <= j
                < e),
{
    let mut j: usize = s;
    while j < e
        invariant
            s <= j <= e <= gone.len(),
            gone.len() == old(gone).len(),
            forall|k: int|
                0 <= k < gone.len() ==> #[trigger] gone@[k] == (old(gone)@[k] || s <= k < j),
        decreases e - j,
    {
        gone.set(j, true);
        j = j + 1;
    }
}

/// Notes what belongs to a credential of this shape, and where the credentials
/// start. Shapes may overlap: the search goes on behind the start of each.
fn note_shapes(text: &str, shape: Shape, gone: &mut Vec<bool>, starts: &mut Vec<bool>)
    requires
        old(gone).len() == text@.len(),
        old(starts).len() == text@.len(),
    ensures
        final(gone).len() == text@.len(),
        final(starts).len() == text@.len(),
        forall|j: int|
            0 <= j < text@.len() ==> #[trigger] final(gone)@[j] == (old(gone)@[j] || gone_by(
                text@,
                shape,
                j,
            )),
        forall|j: int|
            0 <= j < text@.len() ==> #[trigger] final(starts)@[j] == (old(starts)@[j] || exists|
                i: int,
                e: int,
            | #[trigger]
                shape_at(text@, shape, i, j, e)),
{
    let n: usize = text.unicode_len();
    let mut from: usize = 0;
    while from <= n
        invariant
            from <= n + 1,
            n == text@.len(),
            gone.len() == n,
            starts.len() == n,
            old(gone).len() == n,
            old(starts).len() == n,
            forall|j: int| 0 <= j < n && old(gone)@[j] ==> #[trigger] gone@[j],
            forall|j: int| 0 <= j < n && old(starts)@[j] ==> #[trigger] starts@[j],
            forall|j: int|
                0 <= j < n && #[trigger] gone@[j] ==> old(gone)@[j] || gone_by(text@, shape, j),
            forall|j: int|
                0 <= j < n && #[trigger] starts@[j] ==> old(starts)@[j] || exists|i: int, e: int|
                 #[trigger] shape_at(text@, shape, i, j, e),
            forall|i: int, s: int, e: int, j: int|
                #![trigger shape_at(text@, shape, i, s, e), gone@[j]]
                shape_at(text@, shape, i, s, e) && i < from && s <= j < e ==> gone@[j],
            forall|i: int, s: int, e: int| #[trigger]
                shape_at(text@, shape, i, s, e) && i < from ==> starts@[s],
        decreases n + 1 - from,
    {
        let rest = text.substring_char(from, n);
        assert(rest@ =~= text@.skip(from as int));
        match find_shape(shape, rest) {
            None => {
                proof {
                    assert forall|i: int, s: int, e: int| #[trigger]
                        shape_at(text@, shape, i, s, e) implies i < from by {
                        lemma_shape_bounds(text@, shape, i, s, e);
                        if i >= from {
                            lemma_shape_shifts(
                                text@,
                                from as int,
                                shape,
                                i - from,
                                s - from,
                                e - from,
                            );
                            assert(shape_at(rest@, shape, i - from, s - from, e - from));
                        }
                    }
                    lemma_noted(text@, shape, old(gone)@, gone@, from as int);
                }
                return;
            },
            Some((before, head, tail)) => {
                let ghost i0 = from + before@.len();
                let ghost s0 = i0 + head@.len();
                let ghost e0 = s0 + tail@.len();
                proof {
                    lemma_shape_bounds(
                        rest@,
                        shape,
                        i0 - from,
                        s0 - from,
                        e0 - from,
                    );
                    lemma_shape_shifts(text@, from as int, shape, i0 - from, s0 - from, e0 - from);
                    assert(shape_at(text@, shape, i0, s0, e0));
                }
                let i: usize = from + before.as_str().unicode_len();
                let s: usize = i + head.as_str().unicode_len();
                let e: usize = s + tail.as_str().unicode_len();
                note_range(gone, s, e);
                starts.set(s, true);
                proof {
                    assert forall|i2: int, s2: int, e2: int| #[trigger]
                        shape_at(text@, shape, i2, s2, e2) && i2 < i + 1 implies (i2 < from) || (i2
                        == i && s2 == s && e2 == e) by {
                        lemma_shape_bounds(text@, shape, i2, s2, e2);
                        if i2 >= from {
                            lemma_shape_shifts(
                                text@,
                                from as int,
                                shape,
                                i2 - from,
                                s2 - from,
                                e2 - from,
                            );
                            assert(shape_at(rest@, shape, i2 - from, s2 - from, e2 - from));
                            lemma_shape_is_unique(text@, shape, i0, s0, e0, s2, e2);
                        }
                    }
                }
                from = i + 1;
            },
        }
    }
    proof {
        assert forall|i: int, s: int, e: int| #[trigger] shape_at(text@, shape, i, s, e) implies i
            < from by {
            lemma_shape_bounds(text@, shape, i, s, e);
        }
        lemma_noted(text@, shape, old(gone)@, gone@, from as int);
    }
}

proof fn lemma_noted(
    t: Seq<char>,
    shape: Shape,
    before: Seq<bool>,
    gone: Seq<bool>,
    from: int,
)
    requires
        before.len() == t.len(),
        gone.len() == t.len(),
        forall|i: int, s: int, e: int| #[trigger] shape_at(t, shape, i, s, e) ==> i < from,
        forall|i: int, s: int, e: int, j: int|
            #![trigger shape_at(t, shape, i, s, e), gone[j]]
            shape_at(t, shape, i, s, e) && i < from && s <= j < e ==> gone[j],
    ensures
        forall|j: int| 0 <= j < t.len() && gone_by(t, shape, j) ==> #[trigger] gone[j],
{
    assert forall|j: int| 0 <= j < t.len() && gone_by(t, shape, j) implies #[trigger] gone[j] by {
        let (i, s, e) = choose|i: int, s: int, e: int| #[trigger]
            shape_at(t, shape, i, s, e) && s <= j < e;
        assert(shape_at(t, shape, i, s, e));
    }
}

/// A message without credentials.
pub fn hide_credentials(text: &str) -> (r: String)
    ensures
        r@ == hidden(text@),
{
    let n: usize = text.unicode_len();
    let mut gone: Vec<bool> = no_notes(n);
    let mut values: Vec<bool> = no_notes(n);
    let mut others: Vec<bool> = no_notes(n);
    note_shapes(text, Shape::Value, &mut gone, &mut values);
    note_shapes(text, Shape::Bearer, &mut gone, &mut others);
    note_shapes(text, Shape::Scheme, &mut gone, &mut others);
    proof {
        assert forall|j: int| 0 <= j < n implies #[trigger] gone@[j] == is_gone(text@, j) by {
            lemma_gone_by(text@, j);
        }
        assert forall|j: int| 0 <= j < n implies #[trigger] values@[j] == value_starts(
            text@,
            j,
        ) by {
            lemma_value_starts(text@, j);
        }
    }
    show(text, &gone, &values)
}

proof fn lemma_gone_by(t: Seq<char>, j: int)
    ensures
        is_gone(t, j) == (gone_by(t, Shape::Value, j) || gone_by(t, Shape::Bearer, j) || gone_by(
            t,
            Shape::Scheme,
            j,
        )),
{
}

proof fn lemma_value_starts(t: Seq<char>, j: int)
    ensures
        value_starts(t, j) == (exists|i: int, e: int| #[trigger]
            shape_at(t, Shape::Value, i, j, e)),
{
    if value_starts(t, j) {
        let i = choose|i: int| assignment_at(t, i, j);
        assert(shape_at(t, Shape::Value, i, j, value_stop(t, j)));
    }
}

/// Nothing noted of `n` characters.
fn no_notes(n: usize) -> (r: Vec<bool>)
    ensures
        r.len() == n,
        forall|j: int| 0 <= j < n ==> !#[trigger] r@[j],
{
    let mut out: Vec<bool> = Vec::new();
    while out.len() < n
        invariant
            out.len() <= n,
            forall|j: int| 0 <= j < out.len() ==> !#[trigger] out@[j],
        decreases n - out.len(),
    {
        out.push(false);
    }
    out
}

/// What is shown of a text of which these characters are gone and at these places
/// values start.
fn show(text: &str, gone: &Vec<bool>, values: &Vec<bool>) -> (r: String)
    requires
        gone.len() == text@.len(),
        values.len() == text@.len(),
        forall|j: int| 0 <= j < gone.len() ==> #[trigger] gone@[j] == is_gone(text@, j),
        forall|j: int| 0 <= j < values.len() ==> #[trigger] values@[j] == value_starts(text@, j),
    ensures
        r@ == hidden(text@),
{
    let n: usize = text.unicode_len();
    let mut out = String::new();
    let mut j: usize = 0;
    assert(out@ + hidden_from(text@, 0) =~= hidden(text@));
    loop
        invariant
            j <= n,
            n == text@.len(),
            gone.len() == n,
            values.len() == n,
            forall|k: int| 0 <= k < n ==> #[trigger] gone@[k] == is_gone(text@, k),
            forall|k: int| 0 <= k < n ==> #[trigger] values@[k] == value_starts(text@, k),
            0 < j < n ==> !gone@[j as int],
            out@ + hidden_from(text@, j as int) == hidden(text@),
        decreases n - j,
    {
        let mut s: usize = j;
        assert(text@.subrange(j as int, s as int) + hidden_from(text@, s as int) =~= hidden_from(
            text@,
            j as int,
        ));
        while s < n && !gone[s]
            invariant
                j <= s <= n,
                n == text@.len(),
                gone.len() == n,
                forall|k: int| 0 <= k < n ==> #[trigger] gone@[k] == is_gone(text@, k),
                s > j ==> !gone@[s - 1],
                text@.subrange(j as int, s as int) + hidden_from(text@, s as int) == hidden_from(
                    text@,
                    j as int,
                ),
            decreases n - s,
        {
            assert(text@.subrange(j as int, s as int) + (seq![text@[s as int]] + hidden_from(
                text@,
                s + 1,
            )) =~= text@.subrange(j as int, s + 1) + hidden_from(text@, s + 1));
            s = s + 1;
        }
        let ghost before = out@;
        out.append(text.substring_char(j, s));
        if s == n {
            assert(out@ =~= before + (text@.subrange(j as int, n as int) + hidden_from(
                text@,
                n as int,
            )));
            return out;
        }
        if values[s] {
            out.append("=<redacted>");
        } else {
            out.append("<redacted>");
        }
        let mut e: usize = s + 1;
        while e < n && gone[e]
            invariant
                s < e <= n,
                n == text@.len(),
                gone.len() == n,
                forall|k: int| 0 <= k < n ==> #[trigger] gone@[k] == is_gone(text@, k),
                gone@[e - 1],
                mark(text@, s as int) + hidden_from(text@, e as int) == hidden_from(
                    text@,
                    s as int,
                ),
            decreases n - e,
        {
            assert(Seq::<char>::empty() + hidden_from(text@, e + 1) =~= hidden_from(
                text@,
                e + 1,
            ));
            e = e + 1;
        }
        assert(out@ + hidden_from(text@, e as int) =~= before + (text@.subrange(
            j as int,
            s as int,
        ) + (mark(text@, s as int) + hidden_from(text@, e as int))));
        j = e;
    }
}

// ----- Shapes in the rear of a text -----

/// The letters of the word that stands for a hidden value.
pub open spec fn mark_letter(c: char) -> bool {
    c == 'r' || c == 'e' || c == 'd' || c == 'a' || c == 'c' || c == 't'
}

/// A character that neither separates nor quotes nor escapes, and stands in no
/// bracket of the mark.
pub open spec fn is_plain(c: char) -> bool {
    is_value_char(c) && c != ':' && c != '=' && c != '<' && c != '>'
}

pub(crate) proof fn lemma_key_letters(k: Seq<char>)
    requires
        is_sensitive_key(k),
    ensures
        k.len() > 0,
        forall|j: int| 0 <= j < k.len() ==> #[trigger] k[j] == '_' || 'a' <= k[j] <= 'z',
        exists|j: int| 0 <= j < k.len() && !mark_letter(#[trigger] k[j]),
{
    reveal_strlit("access_token");
    reveal_strlit("refresh_token");
    reveal_strlit("id_token");
    reveal_strlit("authorization");
    reveal_strlit("api_key");
    reveal_strlit("secret");
    reveal_strlit("password");
    reveal_strlit("proxy_url");
    reveal_strlit("http_proxy");
    reveal_strlit("https_proxy");
    if k == "access_token"@ || k == "refresh_token"@ || k == "id_token"@ {
        assert(!mark_letter(k[k.len() - 3]));
    } else if k == "authorization"@ || k == "api_key"@ {
        assert(!mark_letter(k[1]));
    } else {
        assert(!mark_letter(k[0]));
    }
}

/// The characters of a key in the text are plain, and not all of them are
/// letters of the mark.
pub(crate) proof fn lemma_key_in_text(t: Seq<char>, i: int, q: int)
    requires
        0 <= i <= q <= t.len(),
        is_sensitive_key(t.subrange(i, q).map_values(|c: char| fold(c))),
    ensures
        i < q,
        forall|j: int| i <= j < q ==> is_plain(#[trigger] t[j]),
        exists|j: int| i <= j < q && !mark_letter(#[trigger] t[j]),
{
    let k = t.subrange(i, q).map_values(|c: char| fold(c));
    lemma_key_letters(k);
    assert forall|j: int| i <= j < q implies is_plain(#[trigger] t[j]) by {
        assert(k[j - i] == fold(t[j]));
    }
    let j = choose|j: int| 0 <= j < k.len() && !mark_letter(#[trigger] k[j]);
    assert(k[j] == fold(t[i + j]));
    assert(!mark_letter(t[i + j]));
}

/// No key starts another: where one stands, no other does.
proof fn lemma_keys_differ_early(a: Seq<char>, b: Seq<char>)
    requires
        is_sensitive_key(a),
        is_sensitive_key(b),
        a[0] == b[0] && a[1] == b[1] && a[4] == b[4],
    ensures
        a == b,
        a.len() >= 6,
{
    reveal_strlit("access_token");
    reveal_strlit("refresh_token");
    reveal_strlit("id_token");
    reveal_strlit("authorization");
    reveal_strlit("api_key");
    reveal_strlit("secret");
    reveal_strlit("password");
    reveal_strlit("proxy_url");
    reveal_strlit("http_proxy");
    reveal_strlit("https_proxy");
}

proof fn lemma_key_is_unique(t: Seq<char>, i: int, q: int, q2: int)
    requires
        assignment_at(t, i, q),
        assignment_at(t, i, q2),
    ensures
        q == q2,
{
    let a = t.subrange(i, q).map_values(|c: char| fold(c));
    let b = t.subrange(i, q2).map_values(|c: char| fold(c));
    lemma_keys_differ_early(a, a);
    lemma_keys_differ_early(b, b);
    assert(a[0] == fold(t[i]) && a[1] == fold(t[i + 1]) && a[4] == fold(t[i + 4]));
    assert(b[0] == fold(t[i]) && b[1] == fold(t[i + 1]) && b[4] == fold(t[i + 4]));
    lemma_keys_differ_early(a, b);
}

pub(crate) proof fn lemma_scan_bounds(t: Seq<char>, i: int, c: char)
    requires
        0 <= i <= t.len(),
    ensures
        i <= space_end(t, i) <= t.len(),
        i <= backslash_end(t, i) <= t.len(),
        i <= run_end(t, i) <= t.len(),
        i <= quote_pos(t, i, c) <= t.len(),
        i <= closing_pos(t, i, c) <= t.len(),
        space_end(t, i) < t.len() ==> !is_space(t[space_end(t, i)]),
        run_end(t, i) < t.len() ==> !is_value_char(t[run_end(t, i)]),
        quote_pos(t, i, c) < t.len() ==> t[quote_pos(t, i, c)] == c,
        closing_pos(t, i, c) < t.len() ==> t[closing_pos(t, i, c)] == c || t[closing_pos(t, i, c)]
            == '\\',
        forall|j: int| i <= j < space_end(t, i) ==> is_space(#[trigger] t[j]),
    decreases t.len() - i,
{
    if i < t.len() {
        lemma_scan_bounds(t, i + 1, c);
        if i + 1 < t.len() {
            lemma_scan_bounds(t, i + 2, c);
        }
    }
}

proof fn lemma_scans_shift(t: Seq<char>, d: int, i: int, c: char)
    requires
        0 <= d <= t.len(),
        0 <= i <= t.len() - d,
    ensures
        space_end(t.skip(d), i) + d == space_end(t, i + d),
        backslash_end(t.skip(d), i) + d == backslash_end(t, i + d),
        run_end(t.skip(d), i) + d == run_end(t, i + d),
        quote_pos(t.skip(d), i, c) + d == quote_pos(t, i + d, c),
        closing_pos(t.skip(d), i, c) + d == closing_pos(t, i + d, c),
    decreases t.len() - d - i,
{
    let s = t.skip(d);
    if i < s.len() {
        assert(s[i] == t[i + d]);
        lemma_scans_shift(t, d, i + 1, c);
        if i + 1 < s.len() {
            lemma_scans_shift(t, d, i + 2, c);
        }
    }
}

proof fn lemma_word_shifts(t: Seq<char>, d: int, i: int, w: Seq<char>)
    requires
        0 <= d <= t.len(),
        0 <= i,
    ensures
        word_at(t.skip(d), i, w) == word_at(t, i + d, w),
{
    if i + d + w.len() <= t.len() {
        assert(t.skip(d).subrange(i, i + w.len()) =~= t.subrange(i + d, i + d + w.len()));
    }
}

proof fn lemma_value_shifts(t: Seq<char>, d: int, v: int)
    requires
        0 <= d <= t.len(),
        0 <= v <= t.len() - d,
    ensures
        value_end(t.skip(d), v) + d == value_end(t, v + d),
{
    let s = t.skip(d);
    if v < s.len() {
        assert(s[v] == t[v + d]);
        lemma_scan_bounds(s, v, '"');
        lemma_scans_shift(t, d, v, '"');
        lemma_scans_shift(t, d, v + 1, s[v]);
        let k = backslash_end(s, v);
        if k < s.len() {
            assert(s[k] == t[k + d]);
            lemma_scans_shift(t, d, k + 1, s[k]);
        }
    }
}

/// The places behind a key in a text's rear are those of the text.
proof fn lemma_places_shift(t: Seq<char>, d: int, q: int)
    requires
        0 <= d <= t.len(),
        0 <= q <= t.len() - d,
    ensures
        separator_pos(t.skip(d), q) + d == separator_pos(t, q + d),
        q <= separator_pos(t.skip(d), q) <= t.len() - d,
        separator_pos(t.skip(d), q) < t.len() - d ==> value_pos(t.skip(d), q) + d == value_pos(
            t,
            q + d,
        ) && value_stop(t.skip(d), q) + d == value_stop(t, q + d) && value_pos(t.skip(d), q)
            <= t.len() - d,
{
    let s = t.skip(d);
    lemma_scan_bounds(s, q, '"');
    lemma_scans_shift(t, d, q, '"');
    let k = backslash_end(s, q);
    if k < s.len() {
        assert(s[k] == t[k + d]);
    }
    let g = key_quote_end(s, q);
    assert(g + d == key_quote_end(t, q + d));
    lemma_scans_shift(t, d, g, '"');
    lemma_scan_bounds(s, g, '"');
    let p = separator_pos(s, q);
    if p < s.len() {
        lemma_scans_shift(t, d, p + 1, '"');
        lemma_scan_bounds(s, p + 1, '"');
        lemma_value_shifts(t, d, value_pos(s, q));
    }
}

/// An assignment of a text's rear stands in the text, and the other way round.
pub(crate) proof fn lemma_assignment_shifts(t: Seq<char>, d: int, i: int, q: int)
    requires
        0 <= d <= t.len(),
        0 <= i <= q <= t.len() - d,
    ensures
        assignment_at(t.skip(d), i, q) == assignment_at(t, i + d, q + d),
        assignment_at(t.skip(d), i, q) ==> value_stop(t.skip(d), q) + d == value_stop(t, q + d),
{
    let s = t.skip(d);
    lemma_places_shift(t, d, q);
    let p = separator_pos(s, q);
    assert(s.subrange(i, q) =~= t.subrange(i + d, q + d));
    if p < s.len() {
        assert(s[p] == t[p + d]);
    }
}

/// A bearer token of a text's rear stands in the text, and the other way round.
pub(crate) proof fn lemma_bearer_shifts(t: Seq<char>, d: int, i: int)
    requires
        0 <= d <= t.len(),
        0 <= i,
    ensures
        bearer_at(t.skip(d), i) == bearer_at(t, i + d),
        bearer_at(t.skip(d), i) ==> token_pos(t.skip(d), i) + d == token_pos(t, i + d)
            && token_stop(t.skip(d), i) + d == token_stop(t, i + d),
{
    reveal_strlit("bearer");
    lemma_word_shifts(t, d, i, "bearer"@);
    if word_at(t.skip(d), i, "bearer"@) {
        lemma_scans_shift(t, d, i + 6, '"');
        lemma_scan_bounds(t.skip(d), i + 6, '"');
        lemma_value_shifts(t, d, token_pos(t.skip(d), i));
    }
}

/// A scheme with credentials of a text's rear stands in the text, and the other way
/// round.
proof fn lemma_scheme_shifts(t: Seq<char>, d: int, i: int)
    requires
        0 <= d <= t.len(),
        0 <= i,
    ensures
        scheme_at(t.skip(d), i) == scheme_at(t, i + d),
        scheme_at(t.skip(d), i) ==> scheme_stop(t.skip(d), i) + d == scheme_stop(t, i + d),
{
    reveal_strlit("authorization");
    reveal_strlit("basic");
    reveal_strlit("bearer");
    let s = t.skip(d);
    lemma_word_shifts(t, d, i, "authorization"@);
    if word_at(s, i, "authorization"@) {
        lemma_assignment_shifts(t, d, i, i + 13);
        if assignment_at(s, i, i + 13) {
            lemma_places_shift(t, d, i + 13);
            let v = value_pos(s, i + 13);
            lemma_word_shifts(t, d, v, "basic"@);
            lemma_word_shifts(t, d, v, "bearer"@);
            let w = v + scheme_len(s, v);
            lemma_scans_shift(t, d, w, '"');
            lemma_scan_bounds(s, w, '"');
            lemma_value_shifts(t, d, scheme_pos(s, i));
        }
    }
}

pub(crate) proof fn lemma_shape_bounds(t: Seq<char>, shape: Shape, i: int, s: int, e: int)
    requires
        shape_at(t, shape, i, s, e),
    ensures
        0 <= i < s < e <= t.len(),
{
    reveal_strlit("bearer");
    match shape {
        Shape::Value => lemma_key_in_text(t, i, s),
        _ => {},
    }
}

proof fn lemma_shape_shifts(t: Seq<char>, d: int, shape: Shape, i: int, s: int, e: int)
    requires
        0 <= d <= t.len(),
        0 <= i <= s <= t.len() - d,
    ensures
        shape_at(t.skip(d), shape, i, s, e) == shape_at(t, shape, i + d, s + d, e + d),
{
    match shape {
        Shape::Value => lemma_assignment_shifts(t, d, i, s),
        Shape::Bearer => lemma_bearer_shifts(t, d, i),
        Shape::Scheme => lemma_scheme_shifts(t, d, i),
    }
}

/// Where a shape starts, one stands.
proof fn lemma_shape_is_unique(
    t: Seq<char>,
    shape: Shape,
    i: int,
    s: int,
    e: int,
    s2: int,
    e2: int,
)
    requires
        shape_at(t, shape, i, s, e),
        shape_at(t, shape, i, s2, e2),
    ensures
        s == s2,
        e == e2,
{
    if shape == Shape::Value {
        lemma_key_is_unique(t, i, s, s2);
    }
}

} // verus!
