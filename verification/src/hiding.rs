//! What holds of messages whose credentials were hidden: they are gone, only marks
//! stand in their places, and hiding twice is hiding once.

use vstd::prelude::*;
use vstd::utf8::encode_utf8;

use crate::credentials::{
    assignment_at, backslash_end, bearer_at, closing_pos, fold, hidden, hidden_from,
    hide_credentials, is_gone, is_plain, is_quote, is_sensitive_key, is_value_char, key_quote_end,
    lemma_assignment_shifts, lemma_bearer_shifts, lemma_key_in_text, lemma_key_letters,
    lemma_scan_bounds, lemma_shape_bounds, mark, mark_letter, run_end, scheme_at, scheme_len,
    scheme_pos, scheme_stop, separator_pos, shape_at, shown_at, space_end, token_pos, token_stop,
    value_end, value_pos, value_starts, value_stop, word_at, Shape,
};
use crate::redact::{sanitized, MAX_LOG_BYTES};
use crate::text::{ascii_lower_all, is_space};

verus! {

// ----- Texts with the same front -----

proof fn lemma_run(t: Seq<char>, i: int, e: int)
    requires
        0 <= i <= e <= t.len(),
        forall|j: int| i <= j < e ==> is_value_char(#[trigger] t[j]),
        e < t.len() ==> !is_value_char(t[e]),
    ensures
        run_end(t, i) == e,
    decreases e - i,
{
    if i < e {
        lemma_run(t, i + 1, e);
    }
}

/// The characters of a word of small letters in the text are plain.
proof fn lemma_word_is_plain(t: Seq<char>, i: int, w: Seq<char>)
    requires
        word_at(t, i, w),
        forall|j: int| 0 <= j < w.len() ==> 'a' <= #[trigger] w[j] <= 'z',
    ensures
        0 <= i <= t.len() - w.len(),
        forall|j: int| i <= j < i + w.len() ==> is_plain(#[trigger] t[j]) && fold(t[j]) == w[j - i],
{
    let x = t.subrange(i, i + w.len()).map_values(|c: char| fold(c));
    assert forall|j: int| i <= j < i + w.len() implies is_plain(#[trigger] t[j]) && fold(t[j])
        == w[j - i] by {
        assert(x[j - i] == fold(t[j]));
        assert('a' <= w[j - i] <= 'z');
    }
}

/// A value ends behind its start and before a character that cannot go on it.
proof fn lemma_value_end(t: Seq<char>, v: int)
    ensures
        value_end(t, v) > v ==> 0 <= v < value_end(t, v) <= t.len(),
        value_end(t, v) > v ==> !is_space(t[v]),
        v < value_end(t, v) < t.len() ==> !is_value_char(t[value_end(t, v)]),
{
    if 0 <= v < t.len() {
        lemma_scan_bounds(t, v, '"');
        lemma_scan_bounds(t, v + 1, t[v]);
        let k = backslash_end(t, v);
        if k < t.len() {
            lemma_scan_bounds(t, k + 1, t[k]);
        }
    }
}

/// Two texts have the same characters before `at`, the last of them plain.
spec fn same_front(r: Seq<char>, t: Seq<char>, at: int) -> bool {
    &&& 0 < at <= t.len()
    &&& at <= r.len()
    &&& forall|j: int| 0 <= j < at ==> #[trigger] r[j] == t[j]
    &&& is_plain(r[at - 1])
}

proof fn lemma_scans_in_front(r: Seq<char>, t: Seq<char>, at: int, i: int)
    requires
        same_front(r, t, at),
        0 <= i < at,
    ensures
        space_end(r, i) == space_end(t, i) <= at - 1,
        backslash_end(r, i) == backslash_end(t, i) <= at - 1,
    decreases at - i,
{
    assert(r[i] == t[i]);
    if i + 1 < at {
        lemma_scans_in_front(r, t, at, i + 1);
    }
}

/// A value that starts in the common front of two texts starts in both.
proof fn lemma_value_in_front(r: Seq<char>, t: Seq<char>, at: int, v: int)
    requires
        same_front(r, t, at),
        0 <= v < at,
        value_end(r, v) > v,
    ensures
        value_end(t, v) > v,
{
    assert(r[v] == t[v]);
    lemma_scans_in_front(r, t, at, v);
    if is_quote(r[v]) {
        assert(v + 1 < at);
        assert(r[v + 1] == t[v + 1]);
        assert(t[v + 1] != t[v]);
        lemma_scan_bounds(t, v + 2, t[v]);
        if t[v + 1] == '\\' {
            assert(v + 2 < at);
            lemma_scan_bounds(t, v + 3, t[v]);
        }
        assert(closing_pos(t, v + 1, t[v]) > v + 1);
    } else if r[v] == '\\' {
        let k = backslash_end(r, v);
        lemma_scan_bounds(r, v, '"');
        assert(r[k] == t[k]);
        assert(k + 1 < at);
        assert(r[k + 1] == t[k + 1]);
        lemma_scan_bounds(t, k + 2, r[k]);
    } else {
        lemma_scan_bounds(t, v + 1, '"');
    }
}

/// An assignment whose key ends in the common front of two texts, before its last
/// character, stands in both.
proof fn lemma_assignment_in_front(r: Seq<char>, t: Seq<char>, at: int, i: int, q: int)
    requires
        same_front(r, t, at),
        assignment_at(r, i, q),
        q < at,
    ensures
        assignment_at(t, i, q),
{
    lemma_scans_in_front(r, t, at, q);
    lemma_scan_bounds(r, q, '"');
    let k = backslash_end(r, q);
    assert(r[k] == t[k]);
    let g = key_quote_end(r, q);
    assert(g < at);
    assert(key_quote_end(t, q) == g);
    lemma_scans_in_front(r, t, at, g);
    let p = separator_pos(r, q);
    assert(r[p] == t[p]);
    assert(p + 1 < at);
    lemma_scans_in_front(r, t, at, p + 1);
    lemma_value_in_front(r, t, at, value_pos(r, q));
    lemma_value_end(t, value_pos(t, q));
    assert(t.subrange(i, q) =~= r.subrange(i, q));
}

/// A token whose word ends in the common front of two texts, before its last
/// character, stands in both.
proof fn lemma_bearer_in_front(r: Seq<char>, t: Seq<char>, at: int, i: int)
    requires
        same_front(r, t, at),
        bearer_at(r, i),
        i + 6 < at,
    ensures
        bearer_at(t, i),
        token_pos(t, i) < at,
{
    reveal_strlit("bearer");
    lemma_scans_in_front(r, t, at, i + 6);
    lemma_value_in_front(r, t, at, token_pos(r, i));
    lemma_value_end(t, token_pos(t, i));
    assert(t.subrange(i, i + 6) =~= r.subrange(i, i + 6));
}

// ----- Marks -----

/// The mark is a value by itself.
proof fn lemma_mark_is_value(t: Seq<char>, v: int)
    requires
        0 <= v <= t.len() - 10,
        t.subrange(v, v + 10) == "<redacted>"@,
        v + 10 < t.len() ==> !is_value_char(t[v + 10]),
    ensures
        value_end(t, v) == v + 10,
        t[v] == '<',
{
    reveal_strlit("<redacted>");
    let m = t.subrange(v, v + 10);
    assert(m[0] == t[v]);
    assert forall|j: int| v <= j < v + 10 implies is_value_char(#[trigger] t[j]) by {
        assert(m[j - v] == t[j]);
    }
    lemma_run(t, v, v + 10);
}

/// A key stands outside a mark.
proof fn lemma_key_outside_mark(r: Seq<char>, from: int, i: int, q: int)
    requires
        0 <= from <= r.len() - 10,
        r.subrange(from, from + 10) == "<redacted>"@,
        0 <= i <= q <= r.len(),
        is_sensitive_key(r.subrange(i, q).map_values(|c: char| fold(c))),
    ensures
        q <= from || from + 10 <= i,
{
    reveal_strlit("<redacted>");
    lemma_key_in_text(r, i, q);
    let m = r.subrange(from, from + 10);
    assert(m[0] == r[from] && m[9] == r[from + 9]);
    if from < i && q <= from + 9 {
        let j = choose|j: int| i <= j < q && !mark_letter(#[trigger] r[j]);
        assert(m[j - from] == r[j]);
    }
}

/// The word before a token stands outside a mark.
proof fn lemma_word_outside_mark(r: Seq<char>, from: int, i: int)
    requires
        0 <= from <= r.len() - 10,
        r.subrange(from, from + 10) == "<redacted>"@,
        word_at(r, i, "bearer"@),
    ensures
        i + 6 <= from || from + 10 <= i,
{
    reveal_strlit("<redacted>");
    reveal_strlit("bearer");
    lemma_word_is_plain(r, i, "bearer"@);
    let m = r.subrange(from, from + 10);
    assert(m[0] == r[from] && m[9] == r[from + 9]);
    if from < i < from + 9 {
        assert(m[i - from] == r[i]);
    }
}

// ----- One mark before a rear without credentials -----

/// Wherever a sensitive key has a value, an equals sign and the mark stand behind it.
pub open spec fn values_hidden(t: Seq<char>) -> bool {
    forall|i: int, q: int| #[trigger]
        assignment_at(t, i, q) ==> t.subrange(q, value_stop(t, q)) == "=<redacted>"@
}

/// Every bearer token is the mark.
pub open spec fn tokens_hidden(t: Seq<char>) -> bool {
    forall|i: int| #[trigger]
        bearer_at(t, i) ==> t.subrange(token_pos(t, i), token_stop(t, i)) == "<redacted>"@
}

/// A text that was put together from the front of another, a mark and a rear
/// that is hidden and cannot go on the mark.
spec fn joined(u: Seq<char>, at: int, m: Seq<char>, h: Seq<char>, r: Seq<char>) -> bool {
    &&& 0 < at <= u.len()
    &&& r == u.take(at) + m + h
    &&& h.len() > 0 ==> !is_value_char(h[0])
    &&& values_hidden(h)
    &&& tokens_hidden(h)
}

/// Shapes of the rear stay what they are.
proof fn lemma_rear_values(r: Seq<char>, n: int, h: Seq<char>, i: int, q: int)
    requires
        0 <= n <= r.len(),
        r.skip(n) == h,
        values_hidden(h),
        assignment_at(r, i, q),
        n <= i,
    ensures
        r.subrange(q, value_stop(r, q)) == "=<redacted>"@,
{
    lemma_key_in_text(r, i, q);
    lemma_assignment_shifts(r, n, i - n, q - n);
    assert(assignment_at(h, i - n, q - n));
    assert(r.subrange(q, value_stop(r, q)) =~= h.subrange(q - n, value_stop(h, q - n)));
}

/// Shapes of the rear stay what they are.
proof fn lemma_rear_tokens(r: Seq<char>, n: int, h: Seq<char>, i: int)
    requires
        0 <= n <= r.len(),
        r.skip(n) == h,
        tokens_hidden(h),
        bearer_at(r, i),
        n <= i,
    ensures
        r.subrange(token_pos(r, i), token_stop(r, i)) == "<redacted>"@,
{
    lemma_bearer_shifts(r, n, i - n);
    assert(bearer_at(h, i - n));
    assert(r.subrange(token_pos(r, i), token_stop(r, i)) =~= h.subrange(
        token_pos(h, i - n),
        token_stop(h, i - n),
    ));
}

/// What a text joined at a key looks like there.
proof fn lemma_joined_at_key(u: Seq<char>, at: int, h: Seq<char>, r: Seq<char>)
    requires
        joined(u, at, "=<redacted>"@, h, r),
        is_plain(u[at - 1]),
    ensures
        at + 11 <= r.len(),
        r.skip(at + 11) == h,
        same_front(r, u, at),
        r[at] == '=',
        r.subrange(at + 1, at + 11) == "<redacted>"@,
        r.subrange(at, value_stop(r, at)) == "=<redacted>"@,
{
    reveal_strlit("=<redacted>");
    reveal_strlit("<redacted>");
    assert(r.skip(at + 11) =~= h);
    assert(r.subrange(at + 1, at + 11) =~= "<redacted>"@);
    if at + 11 < r.len() {
        assert(r[at + 11] == h[0]);
    }
    lemma_mark_is_value(r, at + 1);
    assert(separator_pos(r, at) == at);
    assert(value_pos(r, at) == at + 1);
    assert(r.subrange(at, at + 11) =~= "=<redacted>"@);
}

/// Joined at a key that had a value, no other value shows in front.
proof fn lemma_values_before_value(u: Seq<char>, at: int, h: Seq<char>, r: Seq<char>)
    requires
        joined(u, at, "=<redacted>"@, h, r),
        is_plain(u[at - 1]),
        forall|i: int, q: int| #[trigger] assignment_at(u, i, q) ==> q >= at,
    ensures
        values_hidden(r),
{
    lemma_joined_at_key(u, at, h, r);
    assert forall|i: int, q: int| #[trigger] assignment_at(r, i, q) implies r.subrange(
        q,
        value_stop(r, q),
    ) == "=<redacted>"@ by {
        lemma_key_in_text(r, i, q);
        lemma_key_outside_mark(r, at + 1, i, q);
        if i >= at + 11 {
            lemma_rear_values(r, at + 11, h, i, q);
        } else if q < at {
            lemma_assignment_in_front(r, u, at, i, q);
        } else if q > at {
            assert(is_plain(r[at]));
        }
    }
}

/// Joined at a key that had a value, no token shows in front.
proof fn lemma_tokens_before_value(u: Seq<char>, at: int, h: Seq<char>, r: Seq<char>)
    requires
        joined(u, at, "=<redacted>"@, h, r),
        is_plain(u[at - 1]),
        forall|i: int| #[trigger] bearer_at(u, i) ==> token_pos(u, i) >= at,
    ensures
        tokens_hidden(r),
{
    reveal_strlit("bearer");
    lemma_joined_at_key(u, at, h, r);
    assert forall|i: int| #[trigger] bearer_at(r, i) implies r.subrange(
        token_pos(r, i),
        token_stop(r, i),
    ) == "<redacted>"@ by {
        lemma_word_is_plain(r, i, "bearer"@);
        lemma_word_outside_mark(r, at + 1, i);
        lemma_scan_bounds(r, i + 6, '"');
        if i >= at + 11 {
            lemma_rear_tokens(r, at + 11, h, i);
        } else if i + 6 < at {
            lemma_bearer_in_front(r, u, at, i);
        } else if i + 6 == at {
            assert(is_space(r[i + 6]));
        } else {
            assert(is_plain(r[at]));
        }
    }
}

/// White space stands before `at`, back to `w` or to the start of the text, and
/// a plain character before that.
spec fn spaces_before(u: Seq<char>, w: int, at: int) -> bool {
    &&& w < at <= u.len()
    &&& forall|j: int| 0 <= j && w <= j < at ==> is_space(#[trigger] u[j])
    &&& w > 0 ==> is_plain(u[w - 1])
}

/// What a text joined at a token looks like there.
proof fn lemma_joined_at_token(u: Seq<char>, w: int, at: int, h: Seq<char>, r: Seq<char>)
    requires
        joined(u, at, "<redacted>"@, h, r),
        spaces_before(u, w, at),
    ensures
        at + 10 <= r.len(),
        r.skip(at + 10) == h,
        forall|j: int| 0 <= j < at ==> #[trigger] r[j] == u[j],
        w > 0 ==> same_front(r, u, w),
        r[at] == '<',
        r.subrange(at, at + 10) == "<redacted>"@,
        value_end(r, at) == at + 10,
{
    reveal_strlit("<redacted>");
    assert(r.skip(at + 10) =~= h);
    assert(r.subrange(at, at + 10) =~= "<redacted>"@);
    if at + 10 < r.len() {
        assert(r[at + 10] == h[0]);
    }
    lemma_mark_is_value(r, at);
}

/// The white space before a token ends where the token starts.
proof fn lemma_space_to(r: Seq<char>, i: int, at: int)
    requires
        0 <= i <= at < r.len(),
        forall|j: int| i <= j < at ==> is_space(#[trigger] r[j]),
        !is_space(r[at]),
    ensures
        space_end(r, i) == at,
    decreases at - i,
{
    if i < at {
        assert(is_space(r[i]));
        lemma_space_to(r, i + 1, at);
    }
}

/// Joined at a token, no value shows in front.
proof fn lemma_values_before_token(u: Seq<char>, w: int, at: int, h: Seq<char>, r: Seq<char>)
    requires
        joined(u, at, "<redacted>"@, h, r),
        spaces_before(u, w, at),
        forall|i: int, q: int| #[trigger] assignment_at(u, i, q) ==> q >= at,
    ensures
        values_hidden(r),
{
    lemma_joined_at_token(u, w, at, h, r);
    assert forall|i: int, q: int| #[trigger] assignment_at(r, i, q) implies r.subrange(
        q,
        value_stop(r, q),
    ) == "=<redacted>"@ by {
        lemma_key_in_text(r, i, q);
        lemma_key_outside_mark(r, at, i, q);
        if i >= at + 10 {
            lemma_rear_values(r, at + 10, h, i, q);
        } else {
            assert(is_plain(r[q - 1]) && r[q - 1] == u[q - 1]);
            assert(q <= w);
            if q < w {
                lemma_assignment_in_front(r, u, w, i, q);
            } else {
                assert forall|j: int| q <= j < at implies is_space(#[trigger] r[j]) by {
                    assert(r[j] == u[j]);
                }
                lemma_space_to(r, q, at);
                assert(is_space(r[q]));
                assert(backslash_end(r, q) == q);
                assert(separator_pos(r, q) == at);
            }
        }
    }
}

/// Joined at a token, no other token shows in front.
proof fn lemma_tokens_before_token(u: Seq<char>, w: int, at: int, h: Seq<char>, r: Seq<char>)
    requires
        joined(u, at, "<redacted>"@, h, r),
        spaces_before(u, w, at),
        forall|i: int| #[trigger] bearer_at(u, i) ==> token_pos(u, i) >= at,
    ensures
        tokens_hidden(r),
{
    reveal_strlit("bearer");
    lemma_joined_at_token(u, w, at, h, r);
    assert forall|i: int| #[trigger] bearer_at(r, i) implies r.subrange(
        token_pos(r, i),
        token_stop(r, i),
    ) == "<redacted>"@ by {
        lemma_word_is_plain(r, i, "bearer"@);
        lemma_word_outside_mark(r, at, i);
        if i >= at + 10 {
            lemma_rear_tokens(r, at + 10, h, i);
        } else {
            assert(is_plain(r[i + 5]) && r[i + 5] == u[i + 5]);
            assert(i + 6 <= w);
            if i + 6 < w {
                lemma_bearer_in_front(r, u, w, i);
            } else {
                assert forall|j: int| i + 6 <= j < at implies is_space(#[trigger] r[j]) by {
                    assert(r[j] == u[j]);
                }
                lemma_space_to(r, i + 6, at);
            }
        }
    }
}

// ----- Rows of characters that are gone -----

/// The first place from `j` on whose character belongs to a credential; the end
/// where there is none.
spec fn next_gone(t: Seq<char>, j: int) -> int
    decreases t.len() - j,
{
    if 0 <= j < t.len() && !is_gone(t, j) {
        next_gone(t, j + 1)
    } else {
        j
    }
}

/// The first place from `j` on whose character belongs to no credential.
spec fn gone_end(t: Seq<char>, j: int) -> int
    decreases t.len() - j,
{
    if 0 <= j < t.len() && is_gone(t, j) {
        gone_end(t, j + 1)
    } else {
        j
    }
}

/// Characters that belong to no credential are shown.
proof fn lemma_kept_part(t: Seq<char>, j: int, s: int)
    requires
        0 <= j <= s <= t.len(),
        forall|k: int| j <= k < s ==> !#[trigger] is_gone(t, k),
    ensures
        hidden_from(t, j) == t.subrange(j, s) + hidden_from(t, s),
    decreases s - j,
{
    if j < s {
        lemma_kept_part(t, j + 1, s);
        assert(!is_gone(t, j));
        assert(seq![t[j]] + (t.subrange(j + 1, s) + hidden_from(t, s)) =~= t.subrange(j, s)
            + hidden_from(t, s));
    } else {
        assert(t.subrange(j, s) + hidden_from(t, s) =~= hidden_from(t, s));
    }
}

/// Behind the first of a row nothing is shown of it.
proof fn lemma_rest_of_row(t: Seq<char>, k: int, e: int)
    requires
        0 < k <= e <= t.len(),
        forall|i: int| k - 1 <= i < e ==> #[trigger] is_gone(t, i),
    ensures
        hidden_from(t, k) == hidden_from(t, e),
    decreases e - k,
{
    if k < e {
        lemma_rest_of_row(t, k + 1, e);
        assert(is_gone(t, k) && is_gone(t, k - 1));
        assert(Seq::<char>::empty() + hidden_from(t, k + 1) =~= hidden_from(t, k + 1));
    }
}

/// A row is shown as its mark.
proof fn lemma_row(t: Seq<char>, s: int, e: int)
    requires
        0 <= s < e <= t.len(),
        forall|k: int| s <= k < e ==> #[trigger] is_gone(t, k),
        s == 0 || !is_gone(t, s - 1),
    ensures
        hidden_from(t, s) == mark(t, s) + hidden_from(t, e),
{
    assert(is_gone(t, s));
    lemma_rest_of_row(t, s + 1, e);
}

proof fn lemma_rows(t: Seq<char>, j: int)
    requires
        0 <= j <= t.len(),
    ensures
        j <= next_gone(t, j) <= t.len(),
        forall|k: int| j <= k < next_gone(t, j) ==> !#[trigger] is_gone(t, k),
        next_gone(t, j) < t.len() ==> is_gone(t, next_gone(t, j)),
        j <= gone_end(t, j) <= t.len(),
        forall|k: int| j <= k < gone_end(t, j) ==> #[trigger] is_gone(t, k),
        gone_end(t, j) < t.len() ==> !is_gone(t, gone_end(t, j)),
    decreases t.len() - j,
{
    if j < t.len() {
        lemma_rows(t, j + 1);
    }
}

/// Behind a row of characters that are gone, no value goes on.
proof fn lemma_behind_row(t: Seq<char>, e: int)
    requires
        0 < e < t.len(),
        is_gone(t, e - 1),
        !is_gone(t, e),
    ensures
        !is_value_char(t[e]),
{
    let (shape, i, s, stop) = choose|shape: Shape, i: int, s: int, stop: int| #[trigger]
        shape_at(t, shape, i, s, stop) && s <= e - 1 < stop;
    assert(shape_at(t, shape, i, s, stop));
    assert(stop == e);
    match shape {
        Shape::Value => lemma_value_end(t, value_pos(t, s)),
        Shape::Bearer => lemma_value_end(t, s),
        Shape::Scheme => lemma_value_end(t, scheme_pos(t, i)),
    }
}

/// A row of characters that are gone starts where a credential does.
proof fn lemma_row_start(t: Seq<char>, s: int) -> (found: (Shape, int, int))
    requires
        is_gone(t, s),
        s == 0 || !is_gone(t, s - 1),
    ensures
        shape_at(t, found.0, found.1, s, found.2),
{
    let (shape, i, from, stop) = choose|shape: Shape, i: int, from: int, stop: int| #[trigger]
        shape_at(t, shape, i, from, stop) && from <= s < stop;
    assert(shape_at(t, shape, i, from, stop));
    lemma_shape_bounds(t, shape, i, from, stop);
    (shape, i, stop)
}

/// The word before a token, and the white space between.
proof fn lemma_before_token(t: Seq<char>, i: int)
    requires
        bearer_at(t, i),
    ensures
        0 < i + 6 < token_pos(t, i),
        spaces_before(t, i + 6, token_pos(t, i)),
{
    reveal_strlit("bearer");
    lemma_word_is_plain(t, i, "bearer"@);
    lemma_scan_bounds(t, i + 6, '"');
}

proof fn lemma_shown_value(t: Seq<char>, i: int, q: int)
    requires
        assignment_at(t, i, q),
    ensures
        forall|j: int| q <= j < value_stop(t, q) ==> #[trigger] is_gone(t, j),
{
    assert(shape_at(t, Shape::Value, i, q, value_stop(t, q)));
}

proof fn lemma_shown_token(t: Seq<char>, i: int)
    requires
        bearer_at(t, i),
    ensures
        forall|j: int| token_pos(t, i) <= j < token_stop(t, i) ==> #[trigger] is_gone(t, j),
{
    assert(shape_at(t, Shape::Bearer, i, token_pos(t, i), token_stop(t, i)));
}

/// Where nothing stands that could be hidden, all is hidden.
proof fn lemma_nothing_gone(u: Seq<char>)
    requires
        forall|i: int, q: int| #[trigger] assignment_at(u, i, q) ==> q >= u.len(),
        forall|i: int| #[trigger] bearer_at(u, i) ==> token_pos(u, i) >= u.len(),
    ensures
        values_hidden(u),
        tokens_hidden(u),
{
}

/// One mark, and what stands before it.
proof fn lemma_step(
    t: Seq<char>,
    j: int,
    s: int,
    shape: Shape,
    i0: int,
    stop: int,
    h: Seq<char>,
    r: Seq<char>,
)
    requires
        0 <= j < s <= t.len(),
        shape_at(t, shape, i0, s, stop),
        joined(t.skip(j), s - j, mark(t, s), h, r),
        forall|i: int, q: int| #[trigger] assignment_at(t.skip(j), i, q) ==> q >= s - j,
        forall|i: int| #[trigger] bearer_at(t.skip(j), i) ==> token_pos(t.skip(j), i) >= s - j,
    ensures
        values_hidden(r),
        tokens_hidden(r),
{
    let u = t.skip(j);
    let at = s - j;
    if value_starts(t, s) {
        let i = choose|i: int| assignment_at(t, i, s);
        lemma_key_in_text(t, i, s);
        assert(u[at - 1] == t[s - 1]);
        lemma_values_before_value(u, at, h, r);
        lemma_tokens_before_value(u, at, h, r);
    } else {
        assert(shape == Shape::Bearer);
        lemma_before_token(t, i0);
        let w = i0 + 6 - j;
        assert(spaces_before(u, w, at)) by {
            assert forall|k: int| 0 <= k && w <= k < at implies is_space(#[trigger] u[k]) by {
                assert(u[k] == t[k + j]);
            }
            if w > 0 {
                assert(u[w - 1] == t[w - 1 + j]);
            }
        }
        lemma_values_before_token(u, w, at, h, r);
        lemma_tokens_before_token(u, w, at, h, r);
    }
}

/// What is shown of a text shows no credential.
proof fn lemma_hidden_from(t: Seq<char>, j: int)
    requires
        0 <= j <= t.len(),
        j == 0 || j == t.len() || !is_gone(t, j),
    ensures
        values_hidden(hidden_from(t, j)),
        tokens_hidden(hidden_from(t, j)),
        j < t.len() && !is_gone(t, j) ==> hidden_from(t, j).len() > 0 && hidden_from(t, j)[0]
            == t[j],
        j == t.len() ==> hidden_from(t, j).len() == 0,
    decreases t.len() - j,
{
    lemma_rows(t, j);
    let s = next_gone(t, j);
    lemma_rows(t, s);
    let e = gone_end(t, s);
    let u = t.skip(j);
    let r = hidden_from(t, j);
    lemma_kept_part(t, j, s);
    assert(t.subrange(j, s) =~= u.take(s - j));
    assert forall|i: int, q: int| #[trigger] assignment_at(u, i, q) implies q >= s - j by {
        lemma_assignment_shifts(t, j, i, q);
        lemma_shown_value(t, i + j, q + j);
        assert(is_gone(t, q + j));
    }
    assert forall|i: int| #[trigger] bearer_at(u, i) implies token_pos(u, i) >= s - j by {
        lemma_bearer_shifts(t, j, i);
        lemma_shown_token(t, i + j);
        assert(is_gone(t, token_pos(t, i + j)));
    }
    if s < t.len() {
        let (shape, i0, stop) = lemma_row_start(t, s);
        lemma_shape_bounds(t, shape, i0, s, stop);
        assert(s > j);
        lemma_hidden_from(t, e);
        let h = hidden_from(t, e);
        if e < t.len() {
            lemma_behind_row(t, e);
        }
        lemma_row(t, s, e);
        assert(u.take(s - j) + (mark(t, s) + h) =~= u.take(s - j) + mark(t, s) + h);
        assert(joined(u, s - j, mark(t, s), h, r));
        lemma_step(t, j, s, shape, i0, stop, h, r);
    } else {
        assert(r =~= u);
        lemma_nothing_gone(u);
    }
}

// ----- Hiding again -----

/// In a text whose values are hidden there is no scheme with credentials.
proof fn lemma_no_scheme(x: Seq<char>, i: int)
    requires
        values_hidden(x),
    ensures
        !scheme_at(x, i),
{
    reveal_strlit("basic");
    reveal_strlit("bearer");
    reveal_strlit("=<redacted>");
    if scheme_at(x, i) {
        let q = i + 13;
        let v = value_pos(x, q);
        let m = x.subrange(q, value_stop(x, q));
        assert(m == "=<redacted>"@);
        if word_at(x, v, "basic"@) {
            lemma_word_is_plain(x, v, "basic"@);
        } else {
            lemma_word_is_plain(x, v, "bearer"@);
        }
        assert(fold(x[v]) == 'b');
        assert(m[v - q] == x[v]);
    }
}

/// What starts inside a mark or right behind it starts no credential.
proof fn lemma_no_start_in_mark(x: Seq<char>, from: int, shape: Shape, i: int, s: int, e: int)
    requires
        0 <= from <= x.len() - 10,
        x.subrange(from, from + 10) == "<redacted>"@,
        shape_at(x, shape, i, s, e),
    ensures
        !(from < s <= from + 10),
{
    reveal_strlit("<redacted>");
    let m = x.subrange(from, from + 10);
    if from < s <= from + 10 {
        assert(m[s - 1 - from] == x[s - 1]);
        if shape == Shape::Bearer {
            lemma_before_token(x, i);
            assert(is_space(x[s - 1]));
        } else {
            lemma_key_in_text(x, i, s);
            lemma_key_outside_mark(x, from, i, s);
        }
    }
}

/// Where all is hidden, a row of characters that are gone is its own mark.
proof fn lemma_row_is_mark(x: Seq<char>, s: int)
    requires
        values_hidden(x),
        tokens_hidden(x),
        0 <= s < x.len(),
        is_gone(x, s),
        s == 0 || !is_gone(x, s - 1),
    ensures
        gone_end(x, s) <= x.len(),
        x.subrange(s, gone_end(x, s)) == mark(x, s),
{
    reveal_strlit("<redacted>");
    reveal_strlit("=<redacted>");
    let (shape, i, e) = lemma_row_start(x, s);
    lemma_shape_bounds(x, shape, i, s, e);
    if shape == Shape::Scheme {
        lemma_no_scheme(x, i);
    }
    if value_starts(x, s) {
        let i = choose|i: int| assignment_at(x, i, s);
        let e = value_stop(x, s);
        let m = x.subrange(s, e);
        assert(m == "=<redacted>"@);
        assert(x.subrange(s + 1, s + 11) =~= m.skip(1));
        assert(m.skip(1) =~= "<redacted>"@);
        assert(m[0] == x[s]);
        lemma_shown_value(x, i, s);
        lemma_row_ends(x, s, s + 1, e);
    } else {
        assert(shape == Shape::Bearer);
        assert(x.subrange(s, e) == "<redacted>"@);
        assert(x.subrange(s, e).len() == e - s);
        lemma_shown_token(x, i);
        lemma_row_ends(x, s, s, e);
    }
}

/// A row of characters that are gone ends with its mark.
proof fn lemma_row_ends(x: Seq<char>, s: int, from: int, e: int)
    requires
        values_hidden(x),
        tokens_hidden(x),
        0 <= s <= from <= s + 1,
        e == from + 10 <= x.len(),
        x.subrange(from, e) == "<redacted>"@,
        from > s ==> x[s] == '=',
        forall|k: int| s <= k < e ==> #[trigger] is_gone(x, k),
        s == 0 || !is_gone(x, s - 1),
    ensures
        gone_end(x, s) == e,
{
    lemma_rows(x, s);
    let stop = gone_end(x, s);
    if stop > e {
        assert(is_gone(x, e));
        let (shape, i, a, b) = choose|shape: Shape, i: int, a: int, b: int| #[trigger]
            shape_at(x, shape, i, a, b) && a <= e < b;
        assert(shape_at(x, shape, i, a, b));
        lemma_shape_bounds(x, shape, i, a, b);
        if a < s {
            assert(is_gone(x, s - 1));
        }
        lemma_no_start_in_mark(x, from, shape, i, a, b);
        // It starts where the row does, and ends with it.
        lemma_end_of_start(x, s, from, e, shape, i, a, b);
    }
    if stop < e {
        assert(is_gone(x, stop));
    }
}

/// A credential that starts with the row ends with the mark.
proof fn lemma_end_of_start(
    x: Seq<char>,
    s: int,
    from: int,
    e: int,
    shape: Shape,
    i: int,
    a: int,
    b: int,
)
    requires
        values_hidden(x),
        tokens_hidden(x),
        0 <= s <= from <= s + 1,
        e == from + 10 <= x.len(),
        x.subrange(from, e) == "<redacted>"@,
        from > s ==> x[s] == '=',
        shape_at(x, shape, i, a, b),
        s <= a <= from,
    ensures
        b <= e,
{
    reveal_strlit("<redacted>");
    reveal_strlit("=<redacted>");
    let m = x.subrange(from, e);
    assert(m[0] == x[from]);
    match shape {
        Shape::Scheme => lemma_no_scheme(x, i),
        Shape::Value => {
            let y = x.subrange(a, b);
            assert(y == "=<redacted>"@);
            assert(y[0] == x[a]);
        },
        Shape::Bearer => {
            let y = x.subrange(a, b);
            assert(y == "<redacted>"@);
            assert(y[0] == x[a]);
        },
    }
}

/// What is hidden stays as it is.
proof fn lemma_stays(x: Seq<char>, j: int)
    requires
        values_hidden(x),
        tokens_hidden(x),
        0 <= j <= x.len(),
        j == 0 || j == x.len() || !is_gone(x, j),
    ensures
        hidden_from(x, j) == x.skip(j),
    decreases x.len() - j,
{
    lemma_rows(x, j);
    let s = next_gone(x, j);
    lemma_rows(x, s);
    let e = gone_end(x, s);
    lemma_kept_part(x, j, s);
    if s < x.len() {
        lemma_row_is_mark(x, s);
        lemma_row(x, s, e);
        lemma_stays(x, e);
        assert(x.subrange(j, s) + (x.subrange(s, e) + x.skip(e)) =~= x.skip(j));
    } else {
        assert(x.subrange(j, s) + hidden_from(x, s) =~= x.skip(j));
    }
}

// ----- Laws -----

/// Every credential in a message goes, whatever stands around it: each value of a
/// sensitive key, each token behind the word `bearer` and the credentials behind
/// the scheme of an authorization, quoted or not. None of its characters is kept: for
/// the first of a row a mark is shown, for the others nothing.
pub proof fn law_every_credential_goes(text: Seq<char>)
    ensures
        forall|j: int| #[trigger]
            is_gone(text, j) ==> shown_at(text, j) == mark(text, j) || shown_at(text, j)
                == Seq::<char>::empty(),
        forall|i: int, q: int, j: int|
            #![trigger assignment_at(text, i, q), is_gone(text, j)]
            assignment_at(text, i, q) && q <= j < value_stop(text, q) ==> is_gone(text, j),
        forall|i: int, j: int|
            #![trigger bearer_at(text, i), is_gone(text, j)]
            bearer_at(text, i) && token_pos(text, i) <= j < token_stop(text, i) ==> is_gone(
                text,
                j,
            ),
        forall|i: int, j: int|
            #![trigger scheme_at(text, i), is_gone(text, j)]
            scheme_at(text, i) && i + 13 <= j < scheme_stop(text, i) ==> is_gone(text, j),
{
    assert forall|i: int, q: int, j: int|
        #![trigger assignment_at(text, i, q), is_gone(text, j)]
        assignment_at(text, i, q) && q <= j < value_stop(text, q) implies is_gone(text, j) by {
        lemma_shown_value(text, i, q);
    }
    assert forall|i: int, j: int|
        #![trigger bearer_at(text, i), is_gone(text, j)]
        bearer_at(text, i) && token_pos(text, i) <= j < token_stop(text, i) implies is_gone(
        text,
        j,
    ) by {
        lemma_shown_token(text, i);
    }
    assert forall|i: int, j: int|
        #![trigger scheme_at(text, i), is_gone(text, j)]
        scheme_at(text, i) && i + 13 <= j < scheme_stop(text, i) implies is_gone(text, j) by {
        assert(shape_at(text, Shape::Scheme, i, i + 13, scheme_stop(text, i)));
    }
}

/// Two messages that differ in their credentials only are shown alike: the
/// credentials stand in the same places, each behind the same kind of key or word,
/// and every other character is the same.
pub proof fn law_credentials_do_not_show(a: Seq<char>, b: Seq<char>)
    requires
        a.len() == b.len(),
        forall|j: int| #[trigger] is_gone(a, j) == is_gone(b, j),
        forall|j: int| 0 <= j < a.len() && !is_gone(a, j) ==> #[trigger] a[j] == b[j],
        forall|j: int| #[trigger] value_starts(a, j) == value_starts(b, j),
    ensures
        hidden(a) == hidden(b),
        sanitized(a) == sanitized(b),
{
    lemma_shown_alike(a, b, 0);
}

proof fn lemma_shown_alike(a: Seq<char>, b: Seq<char>, j: int)
    requires
        0 <= j <= a.len(),
        a.len() == b.len(),
        forall|j: int| #[trigger] is_gone(a, j) == is_gone(b, j),
        forall|j: int| 0 <= j < a.len() && !is_gone(a, j) ==> #[trigger] a[j] == b[j],
        forall|j: int| #[trigger] value_starts(a, j) == value_starts(b, j),
    ensures
        hidden_from(a, j) == hidden_from(b, j),
    decreases a.len() - j,
{
    if j < a.len() {
        lemma_shown_alike(a, b, j + 1);
        assert(is_gone(a, j) == is_gone(b, j) && is_gone(a, j - 1) == is_gone(b, j - 1));
        assert(value_starts(a, j) == value_starts(b, j));
        assert(shown_at(a, j) =~= shown_at(b, j));
    }
}

/// In what is shown of a message, only marks stand where credentials would: wherever
/// a sensitive key has a value, an equals sign and the mark stand behind the key, and
/// wherever the word `bearer` has a token, the token is the mark. A message over the
/// length is cut after that, and the cut may go through a mark: of the log line this
/// is stated where nothing is cut.
pub proof fn law_only_marks_are_left(text: Seq<char>)
    ensures
        values_hidden(hidden(text)),
        tokens_hidden(hidden(text)),
        encode_utf8(hidden(text)).len() <= MAX_LOG_BYTES ==> values_hidden(sanitized(text))
            && tokens_hidden(sanitized(text)),
{
    lemma_hidden_from(text, 0);
}

/// Hiding twice is hiding once.
pub proof fn law_hiding_again_changes_nothing(text: Seq<char>)
    ensures
        hidden(hidden(text)) == hidden(text),
{
    law_only_marks_are_left(text);
    lemma_stays(hidden(text), 0);
    assert(hidden(text).skip(0) =~= hidden(text));
}

/// A message without credentials is shown as it is, and a short one is logged as it
/// is.
pub proof fn law_clean_text_is_kept(text: Seq<char>)
    requires
        forall|i: int, q: int| !#[trigger] assignment_at(text, i, q),
        forall|i: int| !#[trigger] bearer_at(text, i),
    ensures
        hidden(text) == text,
        encode_utf8(text).len() <= MAX_LOG_BYTES ==> sanitized(text) == text,
{
    lemma_stays(text, 0);
    assert(text.skip(0) =~= text);
}

// ----- What is shown -----

/// A message is shown character by character: one that belongs to no credential as it is,
/// the first of a row of others as the mark, with an equals sign where a key ends before
/// it, and the rest of the row not at all. `j` is any place.
pub proof fn law_what_is_shown(text: &str, j: int, r: String)
    requires
        call_ensures(hide_credentials, (text,), r),
        0 <= j < text@.len(),
    ensures
        r@ == hidden_from(text@, 0),
        hidden_from(text@, text@.len() as int).len() == 0,
        !is_gone(text@, j) ==> hidden_from(text@, j) == seq![text@[j]] + hidden_from(text@, j + 1),
        is_gone(text@, j) && j > 0 && is_gone(text@, j - 1) ==> hidden_from(text@, j)
            == hidden_from(text@, j + 1),
        is_gone(text@, j) && !(j > 0 && is_gone(text@, j - 1)) && (exists|i: int|
            assignment_at(text@, i, j)) ==> hidden_from(text@, j) == "=<redacted>"@ + hidden_from(
            text@,
            j + 1,
        ),
        is_gone(text@, j) && !(j > 0 && is_gone(text@, j - 1)) && !(exists|i: int|
            assignment_at(text@, i, j)) ==> hidden_from(text@, j) == "<redacted>"@ + hidden_from(
            text@,
            j + 1,
        ),
{
    assert(Seq::<char>::empty() + hidden_from(text@, j + 1) =~= hidden_from(text@, j + 1));
}

/// Nothing but credentials goes: a character that is not kept stands behind a sensitive key
/// with a value, in the token behind the word `bearer`, or behind the key of an
/// authorization with a scheme.
pub proof fn law_only_credentials_go(text: Seq<char>, j: int)
    requires
        is_gone(text, j),
    ensures
        (exists|i: int, q: int| #[trigger]
            assignment_at(text, i, q) && q <= j < value_stop(text, q)) || (exists|i: int|
         #[trigger]
            bearer_at(text, i) && token_pos(text, i) <= j < token_stop(text, i)) || (exists|i: int|
         #[trigger]
            scheme_at(text, i) && i + 13 <= j < scheme_stop(text, i)),
{
    let (shape, i, s, e) = choose|shape: Shape, i: int, s: int, e: int| #[trigger]
        shape_at(text, shape, i, s, e) && s <= j < e;
    assert(shape_at(text, shape, i, s, e));
    match shape {
        Shape::Value => assert(assignment_at(text, i, s)),
        Shape::Bearer => assert(bearer_at(text, i)),
        Shape::Scheme => assert(scheme_at(text, i)),
    }
}

/// Characters that a value can be made of belong to it as far as they go.
proof fn lemma_run_reaches(t: Seq<char>, v: int, e: int)
    requires
        0 <= v <= e <= t.len(),
        forall|j: int| v <= j < e ==> is_value_char(#[trigger] t[j]),
    ensures
        run_end(t, v) >= e,
        run_end(t, v) <= t.len(),
    decreases e - v,
{
    lemma_scan_bounds(t, v, '"');
    if v < e {
        lemma_run_reaches(t, v + 1, e);
    }
}

/// Case does not count in keys and words.
proof fn lemma_folded(w: Seq<char>, t: Seq<char>, i: int)
    requires
        0 <= i,
        i + w.len() <= t.len(),
        t.subrange(i, i + w.len()) == w,
        forall|j: int|
            0 <= j < w.len() ==> #[trigger] ascii_lower_all(w)[j] == '_' || 'a' <= ascii_lower_all(
                w,
            )[j] <= 'z',
    ensures
        t.subrange(i, i + w.len()).map_values(|c: char| fold(c)) == ascii_lower_all(w),
{
    let a = t.subrange(i, i + w.len()).map_values(|c: char| fold(c));
    let b = ascii_lower_all(w);
    assert forall|j: int| 0 <= j < w.len() implies a[j] == b[j] by {
        assert(a[j] == fold(w[j]));
        assert(b[j] == '_' || 'a' <= b[j] <= 'z');
    }
    assert(a =~= b);
}

/// Wherever a sensitive key is written, in whatever case, with a colon or an equals sign
/// and a value behind it, and any white space between them, the whole value goes, and it
/// ends where its characters do. It stands behind `before`, the key, `a`, the sign and `b`.
pub proof fn law_written_values_go(
    before: Seq<char>,
    key: Seq<char>,
    a: Seq<char>,
    sign: char,
    b: Seq<char>,
    value: Seq<char>,
    after: Seq<char>,
    j: int,
)
    requires
        is_sensitive_key(ascii_lower_all(key)),
        sign == ':' || sign == '=',
        forall|k: int| 0 <= k < a.len() ==> is_space(#[trigger] a[k]),
        forall|k: int| 0 <= k < b.len() ==> is_space(#[trigger] b[k]),
        value.len() > 0,
        forall|k: int| 0 <= k < value.len() ==> is_value_char(#[trigger] value[k]),
        0 <= j < value.len(),
    ensures
        is_gone(
            before + key + a + seq![sign] + b + value + after,
            before.len() + key.len() + a.len() + 1 + b.len() + j,
        ),
        after.len() == 0 || !is_value_char(after[0]) ==> value_stop(
            before + key + a + seq![sign] + b + value + after,
            before.len() + key.len() as int,
        ) == before.len() + key.len() + a.len() + 1 + b.len() + value.len(),
{
    let t = before + key + a + seq![sign] + b + value + after;
    let i = before.len() as int;
    let q = i + key.len();
    let p = q + a.len();
    let v = p + 1 + b.len();
    lemma_key_letters(ascii_lower_all(key));
    assert(t.subrange(i, q) =~= key);
    lemma_folded(key, t, i);
    assert(t[p] == sign);
    assert forall|k: int| q <= k < p implies is_space(#[trigger] t[k]) by {
        assert(t[k] == a[k - q]);
    }
    assert forall|k: int| p + 1 <= k < v implies is_space(#[trigger] t[k]) by {
        assert(t[k] == b[k - p - 1]);
    }
    assert forall|k: int| v <= k < v + value.len() implies is_value_char(#[trigger] t[k]) by {
        assert(t[k] == value[k - v]);
    }
    assert(is_value_char(t[v]));
    assert(backslash_end(t, q) == q) by {
        if a.len() > 0 {
            assert(is_space(t[q]));
        }
    }
    assert(key_quote_end(t, q) == q) by {
        if a.len() > 0 {
            assert(is_space(t[q]));
        }
    }
    lemma_space_to(t, q, p);
    lemma_space_to(t, p + 1, v);
    assert(separator_pos(t, q) == p && value_pos(t, q) == v);
    lemma_run_reaches(t, v, v + value.len());
    if after.len() == 0 || !is_value_char(after[0]) {
        if after.len() > 0 {
            assert(t[v + value.len()] == after[0]);
        }
        lemma_run(t, v, v + value.len());
    }
    assert(assignment_at(t, i, q));
    lemma_shown_value(t, i, q);
    assert(is_gone(t, v + j));
}

/// Wherever the word `bearer` is written, in whatever case, with white space and a token
/// behind it, the whole token goes.
pub proof fn law_written_tokens_go(
    before: Seq<char>,
    word: Seq<char>,
    a: Seq<char>,
    token: Seq<char>,
    after: Seq<char>,
    j: int,
)
    requires
        ascii_lower_all(word) == "bearer"@,
        a.len() > 0,
        forall|k: int| 0 <= k < a.len() ==> is_space(#[trigger] a[k]),
        token.len() > 0,
        forall|k: int| 0 <= k < token.len() ==> is_value_char(#[trigger] token[k]),
        0 <= j < token.len(),
    ensures
        is_gone(before + word + a + token + after, before.len() + word.len() + a.len() + j),
{
    reveal_strlit("bearer");
    let t = before + word + a + token + after;
    let i = before.len() as int;
    assert(word.len() == ascii_lower_all(word).len());
    assert(word.len() == 6);
    let v = i + 6 + a.len();
    assert(t.subrange(i, i + 6) =~= word);
    lemma_folded(word, t, i);
    assert forall|k: int| i + 6 <= k < v implies is_space(#[trigger] t[k]) by {
        assert(t[k] == a[k - i - 6]);
    }
    assert forall|k: int| v <= k < v + token.len() implies is_value_char(#[trigger] t[k]) by {
        assert(t[k] == token[k - v]);
    }
    assert(is_value_char(t[v]));
    lemma_space_to(t, i + 6, v);
    lemma_run_reaches(t, v, v + token.len());
    assert(bearer_at(t, i));
    lemma_shown_token(t, i);
    assert(is_gone(t, v + j));
}

/// The keys whose values are not shown.
pub proof fn law_sensitive_keys(key: Seq<char>)
    ensures
        is_sensitive_key(key) <==> key == "access_token"@ || key == "refresh_token"@ || key
            == "id_token"@ || key == "authorization"@ || key == "api_key"@ || key == "secret"@
            || key == "password"@ || key == "proxy_url"@ || key == "http_proxy"@ || key
            == "https_proxy"@,
{
}

/// What a value without quotes can be made of: everything but white space, quotes,
/// backslashes, commas and closing brackets.
pub proof fn law_characters_of_values(c: char)
    ensures
        is_value_char(c) <==> !is_space(c) && c as u32 != 34 && c as u32 != 39 && c as u32 != 92
            && c as u32 != 44 && c as u32 != 125 && c as u32 != 93,
        is_quote(c) <==> c as u32 == 34 || c as u32 == 39,
{
}

proof fn lemma_closing_reaches(t: Seq<char>, v: int, e: int, c: char)
    requires
        0 <= v <= e <= t.len(),
        forall|j: int| v <= j < e ==> #[trigger] t[j] != c && t[j] != '\\',
    ensures
        e <= closing_pos(t, v, c) <= t.len(),
    decreases e - v,
{
    lemma_scan_bounds(t, v, c);
    if v < e {
        assert(t[v] != c && t[v] != '\\');
        lemma_closing_reaches(t, v + 1, e, c);
    }
}

/// Wherever a sensitive key is written with a value in quotes, as in JSON, the whole value
/// goes, white space, commas and brackets in it with it. The key may be in quotes too:
/// `closing` is what closes it, or nothing.
pub proof fn law_quoted_values_go(
    before: Seq<char>,
    key: Seq<char>,
    closing: Seq<char>,
    a: Seq<char>,
    sign: char,
    b: Seq<char>,
    quote: char,
    value: Seq<char>,
    after: Seq<char>,
    j: int,
)
    requires
        is_sensitive_key(ascii_lower_all(key)),
        closing.len() == 0 || (closing.len() == 1 && (closing[0] == '"' || closing[0] == '\'')),
        sign == ':' || sign == '=',
        forall|k: int| 0 <= k < a.len() ==> is_space(#[trigger] a[k]),
        forall|k: int| 0 <= k < b.len() ==> is_space(#[trigger] b[k]),
        quote == '"' || quote == '\'',
        value.len() > 0,
        forall|k: int| 0 <= k < value.len() ==> #[trigger] value[k] != quote && value[k] != '\\',
        0 <= j < value.len(),
    ensures
        is_gone(
            before + key + closing + a + seq![sign] + b + seq![quote] + value + after,
            before.len() + key.len() + closing.len() + a.len() + 1 + b.len() + 1 + j,
        ),
{
    let t = before + key + closing + a + seq![sign] + b + seq![quote] + value + after;
    let i = before.len() as int;
    let q = i + key.len();
    let g = q + closing.len();
    let p = g + a.len();
    let v = p + 1 + b.len();
    lemma_key_letters(ascii_lower_all(key));
    assert(t.subrange(i, q) =~= key);
    lemma_folded(key, t, i);
    assert(t[p] == sign);
    assert(t[v] == quote);
    assert forall|k: int| g <= k < p implies is_space(#[trigger] t[k]) by {
        assert(t[k] == a[k - g]);
    }
    assert forall|k: int| p + 1 <= k < v implies is_space(#[trigger] t[k]) by {
        assert(t[k] == b[k - p - 1]);
    }
    assert forall|k: int| v + 1 <= k < v + 1 + value.len() implies #[trigger] t[k] != quote && t[k]
        != '\\' by {
        assert(t[k] == value[k - v - 1]);
    }
    if closing.len() > 0 {
        assert(t[q] == closing[0]);
    } else if a.len() > 0 {
        assert(is_space(t[q]));
    }
    assert(backslash_end(t, q) == q);
    assert(key_quote_end(t, q) == g);
    lemma_space_to(t, g, p);
    lemma_space_to(t, p + 1, v);
    assert(separator_pos(t, q) == p && value_pos(t, q) == v);
    lemma_closing_reaches(t, v + 1, v + 1 + value.len(), quote);
    assert(assignment_at(t, i, q));
    lemma_shown_value(t, i, q);
    assert(is_gone(t, v + 1 + j));
}

/// Wherever the key `authorization` is written with the scheme `basic` or `bearer` and
/// credentials behind it, all of it goes, up to the end of the credentials.
pub proof fn law_written_schemes_go(
    before: Seq<char>,
    key: Seq<char>,
    sign: char,
    b: Seq<char>,
    scheme: Seq<char>,
    d: Seq<char>,
    credentials: Seq<char>,
    after: Seq<char>,
    j: int,
)
    requires
        ascii_lower_all(key) == "authorization"@,
        sign == ':' || sign == '=',
        forall|k: int| 0 <= k < b.len() ==> is_space(#[trigger] b[k]),
        ascii_lower_all(scheme) == "basic"@ || ascii_lower_all(scheme) == "bearer"@,
        d.len() > 0,
        forall|k: int| 0 <= k < d.len() ==> is_space(#[trigger] d[k]),
        credentials.len() > 0,
        forall|k: int| 0 <= k < credentials.len() ==> is_value_char(#[trigger] credentials[k]),
        0 <= j < credentials.len(),
    ensures
        is_gone(
            before + key + seq![sign] + b + scheme + d + credentials + after,
            before.len() + key.len() + 1 + b.len() + scheme.len() + d.len() + j,
        ),
{
    reveal_strlit("authorization");
    reveal_strlit("basic");
    reveal_strlit("bearer");
    let t = before + key + seq![sign] + b + scheme + d + credentials + after;
    let i = before.len() as int;
    assert(key.len() == ascii_lower_all(key).len());
    assert(scheme.len() == ascii_lower_all(scheme).len());
    let q = i + 13;
    let v = q + 1 + b.len();
    let w = v + scheme.len();
    let c = w + d.len();
    assert(t.subrange(i, q) =~= key);
    lemma_folded(key, t, i);
    assert(t.subrange(v, w) =~= scheme);
    lemma_folded(scheme, t, v);
    assert(t[q] == sign);
    assert forall|k: int| q + 1 <= k < v implies is_space(#[trigger] t[k]) by {
        assert(t[k] == b[k - q - 1]);
    }
    assert forall|k: int| w <= k < c implies is_space(#[trigger] t[k]) by {
        assert(t[k] == d[k - w]);
    }
    assert forall|k: int| c <= k < c + credentials.len() implies is_value_char(
        #[trigger] t[k],
    ) by {
        assert(t[k] == credentials[k - c]);
    }
    assert(is_value_char(t[c]));
    assert(ascii_lower_all(scheme)[0] == 'b');
    assert(t[v] == scheme[0]);
    assert(is_value_char(t[v]));
    assert(backslash_end(t, q) == q && key_quote_end(t, q) == q);
    lemma_space_to(t, q, q);
    lemma_space_to(t, q + 1, v);
    lemma_space_to(t, w, c);
    assert(separator_pos(t, q) == q && value_pos(t, q) == v);
    lemma_run_reaches(t, v, v + 1);
    assert(assignment_at(t, i, q));
    if ascii_lower_all(scheme) == "bearer"@ {
        if word_at(t, v, "basic"@) {
            lemma_word_is_plain(t, v, "basic"@);
            assert(fold(t[v + 1]) == 'a');
            assert(t.subrange(v, w).map_values(|c: char| fold(c))[1] == fold(t[v + 1]));
        }
        assert(word_at(t, v, "bearer"@));
        assert(scheme_len(t, v) == 6);
    } else {
        assert(word_at(t, v, "basic"@));
        assert(scheme_len(t, v) == 5);
    }
    lemma_run_reaches(t, c, c + credentials.len());
    assert(scheme_pos(t, i) == c);
    assert(scheme_at(t, i));
    assert(shape_at(t, Shape::Scheme, i, q, scheme_stop(t, i)));
    assert(is_gone(t, c + j));
}

} // verus!
