//! Release versions such as `4.8.1` and `v4.8.1-beta.2`, and which of two is newer.

use vstd::prelude::*;
use vstd::utf8::is_ascii_chars;

use crate::text::{
    ascii_lower_all, find_char, first_pos, is_space, law_pieces, lemma_first_pos, lex_after,
    lex_split, split_by, str_after, str_eq, strip_leading, to_chars, trim, trim_back, trim_front,
    trim_start_char, trimmed,
};

verus! {

// ----- Numbers -----

pub open spec fn is_digit(c: char) -> bool {
    '0' <= c <= '9'
}

/// The value of a row of decimal digits.
pub open spec fn decimal_value(s: Seq<char>) -> int
    decreases s.len(),
{
    if s.len() == 0 {
        0
    } else {
        decimal_value(s.drop_last()) * 10 + (s.last() as int - '0' as int)
    }
}

/// `s` without one leading plus sign.
pub open spec fn without_plus(s: Seq<char>) -> Seq<char> {
    if s.len() > 0 && s[0] == '+' {
        s.drop_first()
    } else {
        s
    }
}

/// The number that `s` writes: an optional plus sign and one or more decimal
/// digits, of a value that fits 32 bits.
pub open spec fn number(s: Seq<char>) -> Option<u32> {
    let digits = without_plus(s);
    if digits.len() > 0 && (forall|i: int| 0 <= i < digits.len() ==> is_digit(#[trigger] digits[i]))
        && decimal_value(digits) <= u32::MAX {
        Some(decimal_value(digits) as u32)
    } else {
        None
    }
}

/// Digits never have a negative value, and more digits never a smaller one.
proof fn lemma_decimal_value(s: Seq<char>, n: int)
    requires
        0 <= n <= s.len(),
        forall|i: int| 0 <= i < s.len() ==> is_digit(#[trigger] s[i]),
    ensures
        0 <= decimal_value(s.take(n)) <= decimal_value(s),
    decreases s.len(),
{
    if s.len() == 0 {
        assert(s.take(n) =~= s);
    } else {
        let t = s.drop_last();
        assert forall|i: int| 0 <= i < t.len() implies is_digit(#[trigger] t[i]) by {
            assert(t[i] == s[i]);
        }
        if n == s.len() {
            assert(s.take(n) =~= s);
            lemma_decimal_value(t, 0);
            assert(is_digit(s[s.len() - 1]));
        } else {
            lemma_decimal_value(t, n);
            assert(t.take(n) =~= s.take(n));
            assert(is_digit(s[s.len() - 1]));
        }
    }
}

/// Reads `s` as a 32-bit number.
pub fn parse_number(s: &str) -> (r: Option<u32>)
    ensures
        r == number(s@),
{
    let x = to_chars(s);
    let start: usize = if x.len() > 0 && x[0] == '+' { 1 } else { 0 };
    let ghost digits = without_plus(s@);
    assert(digits =~= s@.skip(start as int));
    if start == x.len() {
        return None;
    }
    let mut value: u32 = 0;
    let mut i: usize = start;
    assert(digits.take(0) =~= Seq::<char>::empty());
    while i < x.len()
        invariant
            start <= i <= x.len(),
            start < x.len(),
            x@ == s@,
            digits == without_plus(s@),
            digits == s@.skip(start as int),
            value == decimal_value(digits.take(i - start)),
            forall|j: int| 0 <= j < i - start ==> is_digit(#[trigger] digits[j]),
        decreases x.len() - i,
    {
        let c = x[i];
        assert(digits[i - start] == c);
        if !('0' <= c && c <= '9') {
            return None;
        }
        let d: u32 = c as u32 - '0' as u32;
        assert(digits.take(i - start + 1).drop_last() =~= digits.take(i - start));
        assert(digits.take(i - start + 1).last() == c);
        let next: u64 = value as u64 * 10 + d as u64;
        if next > u32::MAX as u64 {
            proof {
                if forall|j: int| 0 <= j < digits.len() ==> is_digit(#[trigger] digits[j]) {
                    lemma_decimal_value(digits, i - start + 1);
                }
            }
            return None;
        }
        value = next as u32;
        i = i + 1;
    }
    assert(digits.take(digits.len() as int) =~= digits);
    Some(value)
}

/// The numbers among the pieces; a piece that is no number is left out.
pub open spec fn numbers(pieces: Seq<Seq<char>>) -> Seq<u32>
    decreases pieces.len(),
{
    if pieces.len() == 0 {
        Seq::empty()
    } else {
        let rest = numbers(pieces.drop_first());
        match number(pieces[0]) {
            Some(n) => seq![n] + rest,
            None => rest,
        }
    }
}

/// The numbers of a dotted row such as `4.8.1`.
pub open spec fn dotted_numbers(s: Seq<char>) -> Seq<u32> {
    numbers(split_by(s, '.'))
}

/// Reads the numbers of a dotted row.
pub fn parse_dotted(s: &str) -> (r: Vec<u32>)
    ensures
        r@ == dotted_numbers(s@),
{
    let mut out: Vec<u32> = Vec::new();
    let mut rest: &str = s;
    assert(out@ + dotted_numbers(s@) =~= dotted_numbers(s@));
    loop
        invariant
            out@ + dotted_numbers(rest@) == dotted_numbers(s@),
        decreases rest@.len(),
    {
        let n: usize = rest.unicode_len();
        let p: usize = find_char(rest, '.');
        let piece = rest.substring_char(0, p);
        let ghost pieces = split_by(rest@, '.');
        proof {
            assert(piece@ =~= rest@.take(p as int));
            if p == n {
                assert(piece@ =~= rest@);
                assert(pieces.drop_first() =~= Seq::<Seq<char>>::empty());
                assert(numbers(pieces.drop_first()) =~= Seq::<u32>::empty());
            } else {
                assert(pieces.drop_first() =~= split_by(rest@.skip(p + 1), '.'));
            }
            assert(pieces[0] == piece@);
        }
        let ghost before = out@;
        match parse_number(piece) {
            Some(v) => {
                out.push(v);
                assert(out@ + numbers(pieces.drop_first()) =~= before + numbers(pieces));
            },
            None => {
                assert(out@ + numbers(pieces.drop_first()) =~= before + numbers(pieces));
            },
        }
        if p == n {
            assert(out@ + Seq::<u32>::empty() =~= out@);
            return out;
        }
        assert(rest@.subrange(p + 1, n as int) =~= rest@.skip(p + 1));
        rest = rest.substring_char(p + 1, n);
    }
}

// ----- Versions -----

/// What a version is: its numbers, and the tag and number of a pre-release.
pub struct VersionModel {
    pub numbers: Seq<u32>,
    pub pre: Option<(Seq<char>, u32)>,
}

/// A version taken apart: `4.8.1-beta.2` has the numbers 4, 8 and 1 and the
/// pre-release `beta`, 2.
#[derive(Debug)]
pub struct Version {
    pub numbers: Vec<u32>,
    pub pre: Option<(String, u32)>,
}

impl View for Version {
    type V = VersionModel;

    open spec fn view(&self) -> VersionModel {
        VersionModel {
            numbers: self.numbers@,
            pre: match self.pre {
                Some((tag, n)) => Some((tag@, n)),
                None => None,
            },
        }
    }
}

/// What `str::to_lowercase` makes of a text.
pub uninterp spec fn lowercase(s: Seq<char>) -> Seq<char>;

/// Calls `str::to_lowercase` of the standard library. Claimed of it: the result
/// depends on the text alone, and an ASCII text comes back with its capitals as
/// small letters. What becomes of other characters is the Unicode lower case
/// mapping, which is named and not spelled out.
#[verifier::external_body]
fn to_lowercase(s: &str) -> (r: String)
    ensures
        r@ == lowercase(s@),
        is_ascii_chars(s@) ==> r@ == ascii_lower_all(s@),
{
    s.to_lowercase()
}

/// A text in lower case.
pub open spec fn lower_text(s: Seq<char>) -> Seq<char> {
    if is_ascii_chars(s) {
        ascii_lower_all(s)
    } else {
        lowercase(s)
    }
}

/// The text that counts: without white space around it and without leading `v`s.
pub open spec fn bare_version(s: Seq<char>) -> Seq<char> {
    strip_leading(trimmed(s), 'v')
}

/// A pre-release such as `beta.2`: what precedes the first dot in lower case,
/// and the number behind it, 0 where no number stands there.
pub open spec fn pre_release(s: Seq<char>) -> (Seq<char>, u32) {
    let dot = first_pos(s, '.');
    if dot < s.len() {
        (
            lower_text(s.take(dot)),
            match number(s.skip(dot + 1)) {
                Some(n) => n,
                None => 0,
            },
        )
    } else {
        (lower_text(s), 0)
    }
}

/// The version that a text writes. The first hyphen starts the pre-release.
pub open spec fn version_of(s: Seq<char>) -> VersionModel {
    let bare = bare_version(s);
    let hyphen = first_pos(bare, '-');
    if hyphen < bare.len() {
        VersionModel {
            numbers: dotted_numbers(bare.take(hyphen)),
            pre: Some(pre_release(bare.skip(hyphen + 1))),
        }
    } else {
        VersionModel { numbers: dotted_numbers(bare), pre: None }
    }
}

/// Takes the pre-release part of a version apart.
fn parse_pre_release(s: &str) -> (r: (String, u32))
    ensures
        (r.0@, r.1) == pre_release(s@),
{
    let n: usize = s.unicode_len();
    let dot: usize = find_char(s, '.');
    if dot < n {
        let tag = s.substring_char(0, dot);
        let rest = s.substring_char(dot + 1, n);
        assert(tag@ =~= s@.take(dot as int));
        assert(rest@ =~= s@.skip(dot + 1));
        let num: u32 = match parse_number(rest) {
            Some(v) => v,
            None => 0,
        };
        (to_lowercase(tag), num)
    } else {
        (to_lowercase(s), 0)
    }
}

/// Takes a version apart. Never fails: what is no number is left out.
pub fn parse_version(v: &str) -> (r: Version)
    ensures
        r@ == version_of(v@),
{
    let bare = trim_start_char(trim(v), 'v');
    let n: usize = bare.unicode_len();
    let hyphen: usize = find_char(bare, '-');
    if hyphen < n {
        let main_part = bare.substring_char(0, hyphen);
        let pre_part = bare.substring_char(hyphen + 1, n);
        assert(main_part@ =~= bare@.take(hyphen as int));
        assert(pre_part@ =~= bare@.skip(hyphen + 1));
        let numbers = parse_dotted(main_part);
        let pre = parse_pre_release(pre_part);
        Version { numbers, pre: Some(pre) }
    } else {
        Version { numbers: parse_dotted(bare), pre: None }
    }
}

// ----- Order -----

/// The number at place `i`; a version goes on with zeros.
pub open spec fn number_at(numbers: Seq<u32>, i: int) -> u32 {
    if 0 <= i < numbers.len() {
        numbers[i]
    } else {
        0
    }
}

/// `a` is greater than `b` at `i`, and they agree before it.
pub open spec fn numbers_greater_at(a: Seq<u32>, b: Seq<u32>, i: int) -> bool {
    &&& 0 <= i
    &&& number_at(a, i) > number_at(b, i)
    &&& forall|j: int| 0 <= j < i ==> number_at(a, j) == number_at(b, j)
}

/// `a` is greater than `b` where they first differ.
pub open spec fn numbers_greater(a: Seq<u32>, b: Seq<u32>) -> bool {
    exists|i: int| #[trigger] numbers_greater_at(a, b, i)
}

/// `a` and `b` agree everywhere, trailing zeros aside.
pub open spec fn numbers_same(a: Seq<u32>, b: Seq<u32>) -> bool {
    forall|i: int| 0 <= i ==> #[trigger] number_at(a, i) == number_at(b, i)
}

/// A release comes after its pre-releases; pre-releases go by tag, then by number.
pub open spec fn pre_greater(a: Option<(Seq<char>, u32)>, b: Option<(Seq<char>, u32)>) -> bool {
    match (a, b) {
        (None, Some(_)) => true,
        (_, None) => false,
        (Some(x), Some(y)) => if x.0 == y.0 {
            x.1 > y.1
        } else {
            lex_after(x.0, y.0)
        },
    }
}

/// Version `a` comes after version `b`.
pub open spec fn newer(a: VersionModel, b: VersionModel) -> bool {
    numbers_greater(a.numbers, b.numbers) || (numbers_same(a.numbers, b.numbers) && pre_greater(
        a.pre,
        b.pre,
    ))
}

/// Neither version comes after the other: the same numbers and the same pre-release.
pub open spec fn same_rank(a: VersionModel, b: VersionModel) -> bool {
    numbers_same(a.numbers, b.numbers) && a.pre == b.pre
}

/// The number at place `i`; a version goes on with zeros.
fn get_number(numbers: &Vec<u32>, i: usize) -> (r: u32)
    ensures
        r == number_at(numbers@, i as int),
{
    if i < numbers.len() {
        numbers[i]
    } else {
        0
    }
}

/// Whether version `latest` comes after version `current`.
pub fn is_newer(latest: &Version, current: &Version) -> (r: bool)
    ensures
        r == newer(latest@, current@),
{
    let ghost l = latest.numbers@;
    let ghost c = current.numbers@;
    let n: usize = if latest.numbers.len() >= current.numbers.len() {
        latest.numbers.len()
    } else {
        current.numbers.len()
    };
    let mut i: usize = 0;
    while i < n
        invariant
            i <= n,
            n >= latest.numbers.len(),
            n >= current.numbers.len(),
            l == latest.numbers@,
            c == current.numbers@,
            forall|j: int| 0 <= j < i ==> number_at(l, j) == number_at(c, j),
        decreases n - i,
    {
        let a: u32 = get_number(&latest.numbers, i);
        let b: u32 = get_number(&current.numbers, i);
        if a != b {
            proof {
                assert(!numbers_same(l, c));
                if a > b {
                    assert(numbers_greater_at(l, c, i as int));
                } else {
                    assert forall|k: int| !#[trigger] numbers_greater_at(l, c, k) by {
                        if k > i && numbers_greater_at(l, c, k) {
                            assert(number_at(l, i as int) == number_at(c, i as int));
                        }
                    }
                }
            }
            return a > b;
        }
        i = i + 1;
    }
    proof {
        assert forall|k: int| 0 <= k implies #[trigger] number_at(l, k) == number_at(c, k) by {}
        assert forall|k: int| !#[trigger] numbers_greater_at(l, c, k) by {}
    }
    match (&latest.pre, &current.pre) {
        (None, Some(_)) => true,
        (_, None) => false,
        (Some(x), Some(y)) => if str_eq(x.0.as_str(), y.0.as_str()) {
            x.1 > y.1
        } else {
            str_after(x.0.as_str(), y.0.as_str())
        },
    }
}

/// Whether version `latest` comes after version `current`, as both are written.
pub fn compare_versions(latest: &str, current: &str) -> (r: bool)
    ensures
        r == newer(version_of(latest@), version_of(current@)),
{
    let l = parse_version(latest);
    let c = parse_version(current);
    is_newer(&l, &c)
}

// ----- Laws -----

proof fn lemma_lex_after_total(a: Seq<char>, b: Seq<char>, i: int)
    requires
        0 <= i <= a.len(),
        i <= b.len(),
        forall|j: int| 0 <= j < i ==> a[j] == b[j],
    ensures
        a == b || lex_after(a, b) || lex_after(b, a),
    decreases a.len() - i,
{
    if i == a.len() {
        if i == b.len() {
            assert(a =~= b);
        } else {
            assert(lex_split(b, a, i));
        }
    } else if i == b.len() {
        assert(lex_split(a, b, i));
    } else if a[i] == b[i] {
        lemma_lex_after_total(a, b, i + 1);
    } else {
        assert(lex_split(a, b, i));
        assert(lex_split(b, a, i));
    }
}

proof fn lemma_lex_after_asymmetric(a: Seq<char>, b: Seq<char>)
    requires
        lex_after(a, b),
    ensures
        a != b,
        !lex_after(b, a),
{
    let i = choose|i: int| #[trigger] lex_split(a, b, i) && (i == b.len() || a[i] > b[i]);
    if lex_after(b, a) {
        let k = choose|k: int| #[trigger] lex_split(b, a, k) && (k == a.len() || b[k] > a[k]);
        if k < i {
            assert(a[k] == b[k]);
        } else if i < k {
            assert(b[i] == a[i]);
        }
    }
}

proof fn lemma_lex_after_transitive(a: Seq<char>, b: Seq<char>, c: Seq<char>)
    requires
        lex_after(a, b),
        lex_after(b, c),
    ensures
        lex_after(a, c),
{
    let i = choose|i: int| #[trigger] lex_split(a, b, i) && (i == b.len() || a[i] > b[i]);
    let k = choose|k: int| #[trigger] lex_split(b, c, k) && (k == c.len() || b[k] > c[k]);
    let m = if i <= k {
        i
    } else {
        k
    };
    assert forall|j: int| 0 <= j < m implies a[j] == c[j] by {
        assert(a[j] == b[j]);
        assert(b[j] == c[j]);
    }
    if k < i {
        assert(a[k] == b[k]);
    }
    assert(lex_split(a, c, m));
}

proof fn lemma_numbers_total(a: Seq<u32>, b: Seq<u32>, i: int)
    requires
        0 <= i,
        forall|j: int| 0 <= j < i ==> number_at(a, j) == number_at(b, j),
    ensures
        numbers_same(a, b) || numbers_greater(a, b) || numbers_greater(b, a),
    decreases a.len() + b.len() - i,
{
    if i >= a.len() && i >= b.len() {
        assert forall|j: int| 0 <= j implies #[trigger] number_at(a, j) == number_at(b, j) by {}
    } else if number_at(a, i) == number_at(b, i) {
        lemma_numbers_total(a, b, i + 1);
    } else {
        assert(numbers_greater_at(a, b, i) || numbers_greater_at(b, a, i));
    }
}

proof fn lemma_numbers_asymmetric(a: Seq<u32>, b: Seq<u32>)
    requires
        numbers_greater(a, b),
    ensures
        !numbers_greater(b, a),
        !numbers_same(a, b),
        !numbers_same(b, a),
{
    let i = choose|i: int| #[trigger] numbers_greater_at(a, b, i);
    if numbers_greater(b, a) {
        let k = choose|k: int| #[trigger] numbers_greater_at(b, a, k);
        if k < i {
            assert(number_at(a, k) == number_at(b, k));
        } else if i < k {
            assert(number_at(b, i) == number_at(a, i));
        }
    }
    assert(number_at(a, i) != number_at(b, i));
    assert(number_at(b, i) != number_at(a, i));
}

/// One of the two steps may stay level.
proof fn lemma_numbers_transitive(a: Seq<u32>, b: Seq<u32>, c: Seq<u32>)
    requires
        numbers_greater(a, b) || numbers_same(a, b),
        numbers_greater(b, c) || numbers_same(b, c),
    ensures
        numbers_same(a, b) && numbers_same(b, c) ==> numbers_same(a, c),
        !(numbers_same(a, b) && numbers_same(b, c)) ==> numbers_greater(a, c),
{
    if numbers_same(a, b) && numbers_same(b, c) {
        assert forall|j: int| 0 <= j implies #[trigger] number_at(a, j) == number_at(c, j) by {
            assert(number_at(a, j) == number_at(b, j));
            assert(number_at(b, j) == number_at(c, j));
        }
    } else if numbers_same(a, b) {
        let k = choose|k: int| #[trigger] numbers_greater_at(b, c, k);
        assert(number_at(a, k) == number_at(b, k));
        assert forall|j: int| 0 <= j < k implies number_at(a, j) == number_at(c, j) by {
            assert(number_at(a, j) == number_at(b, j));
        }
        assert(numbers_greater_at(a, c, k));
    } else if numbers_same(b, c) {
        let i = choose|i: int| #[trigger] numbers_greater_at(a, b, i);
        assert(number_at(b, i) == number_at(c, i));
        assert forall|j: int| 0 <= j < i implies number_at(a, j) == number_at(c, j) by {
            assert(number_at(b, j) == number_at(c, j));
        }
        assert(numbers_greater_at(a, c, i));
    } else {
        let i = choose|i: int| #[trigger] numbers_greater_at(a, b, i);
        let k = choose|k: int| #[trigger] numbers_greater_at(b, c, k);
        let m = if i <= k {
            i
        } else {
            k
        };
        assert forall|j: int| 0 <= j < m implies number_at(a, j) == number_at(c, j) by {
            assert(number_at(a, j) == number_at(b, j));
            assert(number_at(b, j) == number_at(c, j));
        }
        if k < i {
            assert(number_at(a, k) == number_at(b, k));
        }
        if i < k {
            assert(number_at(b, i) == number_at(c, i));
        }
        assert(numbers_greater_at(a, c, m));
    }
}

/// No version is newer than itself, and no two versions are newer than each other.
pub proof fn law_newer_is_asymmetric(a: VersionModel, b: VersionModel)
    ensures
        newer(a, b) ==> !newer(b, a),
        !newer(a, a),
{
    if newer(a, a) && numbers_greater(a.numbers, a.numbers) {
        lemma_numbers_asymmetric(a.numbers, a.numbers);
    }
    if newer(a, b) && newer(b, a) {
        if numbers_greater(a.numbers, b.numbers) {
            lemma_numbers_asymmetric(a.numbers, b.numbers);
        } else if numbers_greater(b.numbers, a.numbers) {
            lemma_numbers_asymmetric(b.numbers, a.numbers);
        } else {
            let x = a.pre->0;
            let y = b.pre->0;
            if x.0 != y.0 {
                lemma_lex_after_asymmetric(x.0, y.0);
            }
        }
    }
}

/// What is newer than a newer version is newer.
pub proof fn law_newer_is_transitive(a: VersionModel, b: VersionModel, c: VersionModel)
    requires
        newer(a, b),
        newer(b, c),
    ensures
        newer(a, c),
{
    lemma_numbers_transitive(a.numbers, b.numbers, c.numbers);
    if numbers_same(a.numbers, b.numbers) && numbers_same(b.numbers, c.numbers) {
        if numbers_greater(a.numbers, b.numbers) {
            lemma_numbers_asymmetric(a.numbers, b.numbers);
        }
        if numbers_greater(b.numbers, c.numbers) {
            lemma_numbers_asymmetric(b.numbers, c.numbers);
        }
        match (a.pre, b.pre, c.pre) {
            (Some(x), Some(y), Some(z)) => {
                if x.0 != y.0 && y.0 != z.0 {
                    lemma_lex_after_transitive(x.0, y.0, z.0);
                    lemma_lex_after_asymmetric(x.0, z.0);
                }
            },
            _ => {},
        }
    }
}

/// Of two versions one is newer, unless they have the same rank; and then neither is.
pub proof fn law_newer_is_total(a: VersionModel, b: VersionModel)
    ensures
        newer(a, b) || newer(b, a) || same_rank(a, b),
        same_rank(a, b) ==> !newer(a, b) && !newer(b, a),
{
    lemma_numbers_total(a.numbers, b.numbers, 0);
    if numbers_same(a.numbers, b.numbers) {
        assert forall|j: int| 0 <= j implies #[trigger] number_at(b.numbers, j) == number_at(
            a.numbers,
            j,
        ) by {
            assert(number_at(a.numbers, j) == number_at(b.numbers, j));
        }
        match (a.pre, b.pre) {
            (Some(x), Some(y)) => {
                if x.0 != y.0 {
                    lemma_lex_after_total(x.0, y.0, 0);
                }
            },
            _ => {},
        }
        if numbers_greater(a.numbers, b.numbers) {
            lemma_numbers_asymmetric(a.numbers, b.numbers);
        }
        if numbers_greater(b.numbers, a.numbers) {
            lemma_numbers_asymmetric(b.numbers, a.numbers);
        }
    }
}

/// A release is newer than every pre-release of the same numbers, and never the
/// other way round.
pub proof fn law_release_after_pre_release(release: VersionModel, pre: VersionModel)
    requires
        numbers_same(release.numbers, pre.numbers),
        release.pre is None,
        pre.pre is Some,
    ensures
        newer(release, pre),
        !newer(pre, release),
{
    law_newer_is_asymmetric(release, pre);
}

/// Greater numbers make the newer version, whatever is a pre-release.
pub proof fn law_numbers_come_first(a: VersionModel, b: VersionModel)
    requires
        numbers_greater(a.numbers, b.numbers),
    ensures
        newer(a, b),
        !newer(b, a),
{
    law_newer_is_asymmetric(a, b);
}

/// Two pre-releases of the same numbers and the same tag go by their own number.
pub proof fn law_pre_release_number(a: VersionModel, b: VersionModel)
    requires
        numbers_same(a.numbers, b.numbers),
        a.pre is Some,
        b.pre is Some,
        (a.pre->0).0 == (b.pre->0).0,
    ensures
        newer(a, b) <==> (a.pre->0).1 > (b.pre->0).1,
{
    if numbers_greater(a.numbers, b.numbers) {
        lemma_numbers_asymmetric(a.numbers, b.numbers);
    }
}

/// Zeros at the end of the numbers change nothing: `4.8` and `4.8.0` have the same rank.
pub proof fn law_trailing_zero(v: VersionModel)
    ensures
        same_rank(v, (VersionModel { numbers: v.numbers.push(0), pre: v.pre })),
{
    let w = v.numbers.push(0);
    assert forall|j: int| 0 <= j implies #[trigger] number_at(v.numbers, j) == number_at(w, j) by {}
}

proof fn lemma_trim_back_push_front(c: char, s: Seq<char>)
    requires
        !is_space(c),
    ensures
        trim_back(seq![c] + s) == seq![c] + trim_back(s),
    decreases s.len(),
{
    let t = seq![c] + s;
    if s.len() == 0 {
        assert(t.last() == c);
        assert(seq![c] + trim_back(s) =~= t);
    } else {
        assert(t.last() == s.last());
        if is_space(s.last()) {
            assert(t.drop_last() =~= seq![c] + s.drop_last());
            lemma_trim_back_push_front(c, s.drop_last());
        }
    }
}

/// A `v` in front changes nothing, where no white space follows it.
pub proof fn law_leading_v(s: Seq<char>)
    requires
        s.len() > 0 ==> !is_space(s[0]),
    ensures
        version_of(seq!['v'] + s) == version_of(s),
{
    let t = seq!['v'] + s;
    lemma_trim_back_push_front('v', s);
    assert(trim_front(t) == t);
    assert(trim_front(s) == s);
    let b = seq!['v'] + trim_back(s);
    assert(b.drop_first() =~= trim_back(s));
    assert(strip_leading(b, 'v') == strip_leading(trim_back(s), 'v'));
}

/// White space around a version changes nothing.
pub proof fn law_outer_space(c: char, s: Seq<char>)
    requires
        is_space(c),
    ensures
        version_of(seq![c] + s) == version_of(s),
        version_of(s.push(c)) == version_of(s),
{
    assert((seq![c] + s).drop_first() =~= s);
    lemma_trim_front_push(s, c);
}

proof fn lemma_trim_front_push(s: Seq<char>, c: char)
    requires
        is_space(c),
    ensures
        trim_back(trim_front(s.push(c))) == trim_back(trim_front(s)),
    decreases s.len(),
{
    let t = s.push(c);
    if s.len() == 0 {
        assert(t.drop_first() =~= s);
    } else if is_space(s[0]) {
        assert(t.drop_first() =~= s.drop_first().push(c));
        lemma_trim_front_push(s.drop_first(), c);
    } else {
        assert(t.drop_last() =~= s);
    }
}

// ----- Versions as they are written -----

/// A number in decimal digits, without leading zeros.
pub open spec fn decimal(n: int) -> Seq<char>
    decreases n,
{
    if n < 10 {
        seq![((48 + n) as u32) as char]
    } else {
        decimal(n / 10).push(((48 + n % 10) as u32) as char)
    }
}

/// Numbers with dots between them.
pub open spec fn dotted(numbers: Seq<u32>) -> Seq<char>
    decreases numbers.len(),
{
    if numbers.len() == 0 {
        Seq::empty()
    } else if numbers.len() == 1 {
        decimal(numbers[0] as int)
    } else {
        decimal(numbers[0] as int) + seq!['.'] + dotted(numbers.drop_first())
    }
}

proof fn lemma_decimal(n: int)
    requires
        0 <= n,
    ensures
        decimal(n).len() > 0,
        forall|i: int| 0 <= i < decimal(n).len() ==> is_digit(#[trigger] decimal(n)[i]),
        decimal_value(decimal(n)) == n,
    decreases n,
{
    let d = decimal(n);
    if n < 10 {
        assert(d.drop_last() =~= Seq::<char>::empty());
        assert(decimal_value(d.drop_last()) == 0);
    } else {
        lemma_decimal(n / 10);
        let front = decimal(n / 10);
        assert(d.drop_last() =~= front);
        assert forall|i: int| 0 <= i < d.len() implies is_digit(#[trigger] d[i]) by {
            if i < front.len() {
                assert(d[i] == front[i]);
            }
        }
    }
}

/// A number is read as it is written, wherever it fits 32 bits; a greater one is none.
pub proof fn law_numbers_are_read(n: int)
    requires
        0 <= n,
    ensures
        n <= u32::MAX ==> number(decimal(n)) == Some(n as u32),
        n > u32::MAX ==> number(decimal(n)) is None,
        n <= u32::MAX ==> number(seq!['+'] + decimal(n)) == Some(n as u32),
{
    lemma_decimal(n);
    assert(is_digit(decimal(n)[0]));
    assert((seq!['+'] + decimal(n)).drop_first() =~= decimal(n));
}

/// Each digit more makes ten times the number, and the digit: leading zeros count
/// nothing.
pub proof fn law_one_digit_more(s: Seq<char>, c: char, x: u32)
    requires
        number(s) == Some(x),
        is_digit(c),
    ensures
        10 * x + (c as u32 - 48) <= u32::MAX ==> number(s.push(c)) == Some(
            (10 * x + (c as u32 - 48)) as u32,
        ),
        10 * x + (c as u32 - 48) > u32::MAX ==> number(s.push(c)) is None,
        number(seq![c]) == Some((c as u32 - 48) as u32),
{
    let t = s.push(c);
    let d = without_plus(s);
    let e = without_plus(t);
    assert(e =~= d.push(c));
    assert(e.drop_last() =~= d);
    lemma_decimal_value(d, 0);
    assert(d.take(0) =~= Seq::<char>::empty());
    assert(decimal_value(d) == x);
    assert forall|i: int| 0 <= i < e.len() implies is_digit(#[trigger] e[i]) by {
        if i < d.len() {
            assert(e[i] == d[i]);
        }
    }
    let one = seq![c];
    assert(one.drop_last() =~= Seq::<char>::empty());
    assert(decimal_value(one.drop_last()) == 0);
    assert(without_plus(one) == one);
    assert forall|i: int| 0 <= i < one.len() implies is_digit(#[trigger] one[i]) by {}
}

/// What holds anything but digits, a leading plus sign aside, is no number; nor is a
/// text without digits.
pub proof fn law_what_is_no_number(s: Seq<char>, i: int)
    ensures
        0 <= i < s.len() && !is_digit(s[i]) && !(i == 0 && s[i] == '+') ==> number(s) is None,
        s.len() == 0 ==> number(s) is None,
        s == seq!['+'] ==> number(s) is None,
{
    let d = without_plus(s);
    if 0 <= i < s.len() && !is_digit(s[i]) && !(i == 0 && s[i] == '+') {
        if s[0] == '+' {
            assert(d[i - 1] == s[i]);
        } else {
            assert(d[i] == s[i]);
        }
    }
}

/// The numbers of a row are those of its pieces, in order; a piece that is no number is
/// left out.
pub proof fn law_numbers_of_a_row(a: Seq<char>, rest: Seq<char>)
    requires
        !a.contains('.'),
    ensures
        number(a) matches Some(n) ==> dotted_numbers(a) == seq![n] && dotted_numbers(
            a + seq!['.'] + rest,
        ) == seq![n] + dotted_numbers(rest),
        number(a) is None ==> dotted_numbers(a).len() == 0 && dotted_numbers(
            a + seq!['.'] + rest,
        ) == dotted_numbers(rest),
{
    law_pieces(a, '.', rest);
    let one = split_by(a, '.');
    assert(one.drop_first() =~= Seq::<Seq<char>>::empty());
    assert(numbers(one.drop_first()) =~= Seq::<u32>::empty());
    let all = split_by(a + seq!['.'] + rest, '.');
    assert(all.drop_first() =~= split_by(rest, '.'));
    assert(all[0] == a);
    if let Some(n) = number(a) {
        assert(seq![n] + Seq::<u32>::empty() =~= seq![n]);
    }
}

proof fn lemma_no_mark_in_digits(n: int, c: char)
    requires
        0 <= n,
        !is_digit(c),
    ensures
        !decimal(n).contains(c),
{
    lemma_decimal(n);
    if decimal(n).contains(c) {
        let i = choose|i: int| 0 <= i < decimal(n).len() && decimal(n)[i] == c;
        assert(is_digit(decimal(n)[i]));
    }
}

/// The text of a row of numbers starts and ends with a digit, and is made of digits and
/// dots.
proof fn lemma_dotted(ns: Seq<u32>)
    requires
        ns.len() > 0,
    ensures
        dotted(ns).len() > 0,
        is_digit(dotted(ns)[0]),
        is_digit(dotted(ns).last()),
        forall|i: int|
            0 <= i < dotted(ns).len() ==> is_digit(#[trigger] dotted(ns)[i]) || dotted(ns)[i]
                == '.',
        dotted_numbers(dotted(ns)) == ns,
    decreases ns.len(),
{
    let n = ns[0] as int;
    lemma_decimal(n);
    law_numbers_are_read(n);
    lemma_no_mark_in_digits(n, '.');
    assert(is_digit(decimal(n)[0]) && is_digit(decimal(n)[decimal(n).len() - 1]));
    if ns.len() == 1 {
        law_numbers_of_a_row(decimal(n), Seq::empty());
        assert(ns =~= seq![ns[0]]);
    } else {
        let rest = ns.drop_first();
        lemma_dotted(rest);
        law_numbers_of_a_row(decimal(n), dotted(rest));
        assert(ns =~= seq![ns[0]] + rest);
        let t = dotted(ns);
        let k = decimal(n).len() + 1;
        assert forall|i: int| 0 <= i < t.len() implies is_digit(#[trigger] t[i]) || t[i] == '.' by {
            if i < decimal(n).len() {
                assert(t[i] == decimal(n)[i]);
            } else if i >= k {
                assert(t[i] == dotted(rest)[i - k]);
            }
        }
        assert(t[0] == decimal(n)[0]);
        assert(t.last() == dotted(rest).last());
    }
}

/// Where a text is a row of numbers, a hyphen and more, the hyphen parts it.
proof fn lemma_parted(ns: Seq<u32>, pre: Seq<char>)
    requires
        ns.len() > 0,
        pre.len() > 0 ==> !is_space(pre.last()),
    ensures
        version_of(dotted(ns) + seq!['-'] + pre) == (VersionModel {
            numbers: ns,
            pre: Some(pre_release(pre)),
        }),
{
    lemma_dotted(ns);
    let d = dotted(ns);
    if d.contains('-') {
        let i = choose|i: int| 0 <= i < d.len() && d[i] == '-';
        assert(is_digit(d[i]) || d[i] == '.');
    }
    lemma_at_the_hyphen(d, pre);
}

/// A release is read as it is written: its numbers, all of them and in order, and no
/// pre-release.
pub proof fn law_releases_are_read(ns: Seq<u32>)
    requires
        ns.len() > 0,
    ensures
        version_of(dotted(ns)).numbers == ns,
        version_of(dotted(ns)).pre is None,
{
    lemma_dotted(ns);
    let d = dotted(ns);
    assert(trimmed(d) == d);
    assert(bare_version(d) == d);
    lemma_first_pos(d, '-');
    if d.contains('-') {
        let i = choose|i: int| 0 <= i < d.len() && d[i] == '-';
        assert(is_digit(d[i]) || d[i] == '.');
    }
}

/// A tag in small letters: of ASCII letters the small ones, of other texts what the
/// Unicode mapping makes of them.
pub proof fn law_tags_in_small_letters(tag: Seq<char>)
    ensures
        is_ascii_chars(tag) ==> lower_text(tag) == ascii_lower_all(tag),
        !is_ascii_chars(tag) ==> lower_text(tag) == lowercase(tag),
{
}

/// A pre-release is read as it is written: the numbers before the hyphen, the tag in small
/// letters, and the whole number behind the dot.
pub proof fn law_pre_releases_are_read(ns: Seq<u32>, tag: Seq<char>, n: u32)
    requires
        ns.len() > 0,
        !tag.contains('.'),
    ensures
        version_of(dotted(ns) + seq!['-'] + (tag + seq!['.'] + decimal(n as int))).numbers == ns,
        version_of(dotted(ns) + seq!['-'] + (tag + seq!['.'] + decimal(n as int))).pre == Some(
            (lower_text(tag), n),
        ),
{
    let pre = tag + seq!['.'] + decimal(n as int);
    lemma_decimal(n as int);
    assert(pre.last() == decimal(n as int).last());
    assert(is_digit(decimal(n as int)[decimal(n as int).len() - 1]));
    lemma_parted(ns, pre);
    lemma_tag_ends_at_dot(tag, decimal(n as int));
    law_numbers_are_read(n as int);
}

proof fn lemma_tag_ends_at_dot(tag: Seq<char>, rest: Seq<char>)
    requires
        !tag.contains('.'),
    ensures
        first_pos(tag + seq!['.'] + rest, '.') == tag.len(),
        (tag + seq!['.'] + rest).take(tag.len() as int) == tag,
        (tag + seq!['.'] + rest).skip(tag.len() as int + 1) == rest,
        first_pos(tag, '.') == tag.len(),
{
    let pre = tag + seq!['.'] + rest;
    lemma_first_pos(pre, '.');
    lemma_first_pos(tag, '.');
    assert(pre[tag.len() as int] == '.');
    assert forall|j: int| 0 <= j < tag.len() implies pre[j] != '.' by {
        assert(pre[j] == tag[j]);
        assert(tag.contains(tag[j]));
    }
    assert(pre.take(tag.len() as int) =~= tag);
    assert(pre.skip(tag.len() as int + 1) =~= rest);
}

/// A pre-release without a number, or with something else behind the dot, counts as
/// number 0 of its tag.
pub proof fn law_pre_releases_without_number(ns: Seq<u32>, tag: Seq<char>, rest: Seq<char>)
    requires
        ns.len() > 0,
        !tag.contains('.'),
        number(rest) is None,
        tag.len() > 0 ==> !is_space(tag.last()),
        rest.len() > 0 ==> !is_space(rest.last()),
    ensures
        version_of(dotted(ns) + seq!['-'] + tag).numbers == ns,
        version_of(dotted(ns) + seq!['-'] + tag).pre == Some((lower_text(tag), 0u32)),
        version_of(dotted(ns) + seq!['-'] + (tag + seq!['.'] + rest)).numbers == ns,
        version_of(dotted(ns) + seq!['-'] + (tag + seq!['.'] + rest)).pre == Some(
            (lower_text(tag), 0u32),
        ),
{
    let pre = tag + seq!['.'] + rest;
    if rest.len() > 0 {
        assert(pre.last() == rest.last());
    }
    lemma_parted(ns, pre);
    lemma_parted(ns, tag);
    lemma_tag_ends_at_dot(tag, rest);
}

// ----- Which of two is newer -----

/// The numbers decide where they first differ; the shorter row goes on with zeros. `i` is
/// that place.
pub proof fn law_first_difference_decides(latest: &Version, current: &Version, i: int, r: bool)
    requires
        call_ensures(is_newer, (latest, current), r),
        0 <= i < latest.numbers.len() || 0 <= i < current.numbers.len(),
        forall|j: int|
            #![trigger latest.numbers@[j]]
            #![trigger current.numbers@[j]]
            0 <= j < i ==> (if j < latest.numbers.len() {
                latest.numbers@[j]
            } else {
                0
            }) == (if j < current.numbers.len() {
                current.numbers@[j]
            } else {
                0
            }),
    ensures
        i < latest.numbers.len() && i < current.numbers.len() && latest.numbers@[i]
            != current.numbers@[i] ==> r == (latest.numbers@[i] > current.numbers@[i]),
        i >= current.numbers.len() && latest.numbers@[i] > 0 ==> r,
        i >= latest.numbers.len() && current.numbers@[i] > 0 ==> !r,
{
    let a = latest.numbers@;
    let b = current.numbers@;
    assert forall|j: int| 0 <= j < i implies number_at(a, j) == number_at(b, j) by {
        if j < a.len() {
            assert(a[j] == a[j]);
        }
        if j < b.len() {
            assert(b[j] == b[j]);
        }
    }
    if number_at(a, i) > number_at(b, i) {
        assert(numbers_greater_at(a, b, i));
        assert(numbers_greater(a, b));
    } else if number_at(a, i) < number_at(b, i) {
        assert(numbers_greater_at(b, a, i));
        assert(numbers_greater(b, a));
        lemma_numbers_asymmetric(b, a);
    }
}

/// Where all numbers agree, a release is newer than a pre-release, and nothing is newer
/// than a release. Of two pre-releases the later tag is newer, and of one tag the
/// greater number.
pub proof fn law_pre_release_decides_next(latest: &Version, current: &Version, r: bool)
    requires
        call_ensures(is_newer, (latest, current), r),
        forall|j: int|
            #![trigger latest.numbers@[j]]
            #![trigger current.numbers@[j]]
            0 <= j ==> (if j < latest.numbers.len() {
                latest.numbers@[j]
            } else {
                0
            }) == (if j < current.numbers.len() {
                current.numbers@[j]
            } else {
                0
            }),
    ensures
        current.pre is None ==> !r,
        latest.pre is None && current.pre is Some ==> r,
        latest.pre is Some && current.pre is Some && (latest.pre->0).0@ == (current.pre->0).0@
            ==> r == ((latest.pre->0).1 > (current.pre->0).1),
        latest.pre is Some && current.pre is Some && (latest.pre->0).0@ != (current.pre->0).0@
            ==> r == lex_after((latest.pre->0).0@, (current.pre->0).0@),
{
    let a = latest.numbers@;
    let b = current.numbers@;
    assert forall|j: int| 0 <= j implies #[trigger] number_at(a, j) == number_at(b, j) by {
        if j < a.len() {
            assert(a[j] == a[j]);
        }
        if j < b.len() {
            assert(b[j] == b[j]);
        }
    }
    assert(numbers_same(a, b));
    if numbers_greater(a, b) {
        lemma_numbers_asymmetric(a, b);
    }
}

/// Texts are compared as the versions that they write.
pub proof fn law_texts_are_compared_as_versions(
    latest: &str,
    current: &str,
    l: Version,
    c: Version,
    texts: bool,
    versions: bool,
)
    requires
        call_ensures(compare_versions, (latest, current), texts),
        call_ensures(parse_version, (latest,), l),
        call_ensures(parse_version, (current,), c),
        call_ensures(is_newer, (&l, &c), versions),
    ensures
        texts == versions,
        l@ == version_of(latest@),
{
}

proof fn lemma_same_numbers(ns: Seq<u32>)
    ensures
        numbers_same(ns, ns),
        !numbers_greater(ns, ns),
{
    if numbers_greater(ns, ns) {
        lemma_numbers_asymmetric(ns, ns);
    }
}

/// Of two pre-releases with the same numbers and the same tag, written out, the one with
/// the greater number is newer, however many digits it has.
pub proof fn law_greater_pre_release_is_newer(
    ns: Seq<u32>,
    tag: Seq<char>,
    n: u32,
    m: u32,
    latest: &str,
    current: &str,
    r: bool,
)
    requires
        call_ensures(compare_versions, (latest, current), r),
        ns.len() > 0,
        !tag.contains('.'),
        latest@ == dotted(ns) + seq!['-'] + (tag + seq!['.'] + decimal(n as int)),
        current@ == dotted(ns) + seq!['-'] + (tag + seq!['.'] + decimal(m as int)),
    ensures
        r <==> n > m,
{
    law_pre_releases_are_read(ns, tag, n);
    law_pre_releases_are_read(ns, tag, m);
    lemma_same_numbers(ns);
}

/// Of two pre-releases with the same numbers, written out, the one with the later tag is
/// newer, whatever their numbers.
pub proof fn law_later_tag_is_newer(
    ns: Seq<u32>,
    tag: Seq<char>,
    other: Seq<char>,
    n: u32,
    m: u32,
    latest: &str,
    current: &str,
    r: bool,
)
    requires
        call_ensures(compare_versions, (latest, current), r),
        ns.len() > 0,
        !tag.contains('.'),
        !other.contains('.'),
        lower_text(tag) != lower_text(other),
        latest@ == dotted(ns) + seq!['-'] + (tag + seq!['.'] + decimal(n as int)),
        current@ == dotted(ns) + seq!['-'] + (other + seq!['.'] + decimal(m as int)),
    ensures
        r <==> lex_after(lower_text(tag), lower_text(other)),
{
    law_pre_releases_are_read(ns, tag, n);
    law_pre_releases_are_read(ns, other, m);
    lemma_same_numbers(ns);
}

/// A release, written out, is newer than each of its pre-releases, and none of these is
/// newer than it.
pub proof fn law_release_is_newer_than_its_pre_releases(
    ns: Seq<u32>,
    tag: Seq<char>,
    n: u32,
    release: &str,
    pre: &str,
    r: bool,
    back: bool,
)
    requires
        call_ensures(compare_versions, (release, pre), r),
        call_ensures(compare_versions, (pre, release), back),
        ns.len() > 0,
        !tag.contains('.'),
        release@ == dotted(ns),
        pre@ == dotted(ns) + seq!['-'] + (tag + seq!['.'] + decimal(n as int)),
    ensures
        r,
        !back,
{
    law_releases_are_read(ns);
    law_pre_releases_are_read(ns, tag, n);
    lemma_same_numbers(ns);
}

/// Of two releases, written out, the one whose number is greater where they first differ
/// is newer; one that only goes on with zeros is not.
pub proof fn law_greater_release_is_newer(
    a: Seq<u32>,
    b: Seq<u32>,
    i: int,
    latest: &str,
    current: &str,
    r: bool,
)
    requires
        call_ensures(compare_versions, (latest, current), r),
        a.len() > 0,
        b.len() > 0,
        latest@ == dotted(a),
        current@ == dotted(b),
        0 <= i <= a.len(),
        i <= b.len(),
        forall|j: int| 0 <= j < i ==> #[trigger] a[j] == b[j],
    ensures
        i < a.len() && i < b.len() && a[i] != b[i] ==> r == (a[i] > b[i]),
        i == b.len() ==> (r <==> exists|k: int| i <= k < a.len() && #[trigger] a[k] > 0),
        i == a.len() ==> !r,
{
    law_releases_are_read(a);
    law_releases_are_read(b);
    assert forall|j: int| 0 <= j < i implies number_at(a, j) == number_at(b, j) by {
        assert(a[j] == b[j]);
    }
    if i < a.len() && i < b.len() && a[i] != b[i] {
        if a[i] > b[i] {
            assert(numbers_greater_at(a, b, i));
        } else {
            assert(numbers_greater_at(b, a, i));
            lemma_numbers_asymmetric(b, a);
        }
    }
    if numbers_greater(a, b) {
        let k = choose|k: int| #[trigger] numbers_greater_at(a, b, k);
        if i == b.len() || i == a.len() {
            assert(k >= i);
            assert(i <= k < a.len() && a[k] > 0);
        }
    }
    if i == b.len() && exists|k: int| i <= k < a.len() && #[trigger] a[k] > 0 {
        let k = choose|k: int| i <= k < a.len() && #[trigger] a[k] > 0;
        lemma_greater_somewhere(a, b, k, i);
    }
}

proof fn lemma_greater_somewhere(a: Seq<u32>, b: Seq<u32>, k: int, i: int)
    requires
        0 <= b.len() <= i <= k < a.len(),
        a[k] > 0,
        forall|j: int| 0 <= j < i ==> number_at(a, j) == number_at(b, j),
    ensures
        numbers_greater(a, b),
    decreases k - i,
{
    if number_at(a, i) > 0 {
        assert(numbers_greater_at(a, b, i));
    } else {
        lemma_greater_somewhere(a, b, k, i + 1);
    }
}

/// Numbers and rows of numbers are read from the whole text; so is a version.
pub proof fn law_texts_are_read_whole(
    s: &str,
    n: Option<u32>,
    row: Vec<u32>,
    v: Version,
)
    requires
        call_ensures(parse_number, (s,), n),
        call_ensures(parse_dotted, (s,), row),
        call_ensures(parse_version, (s,), v),
    ensures
        n == number(s@),
        row@ == dotted_numbers(s@),
        v.numbers@ == version_of(s@).numbers,
        v.pre is Some <==> version_of(s@).pre is Some,
        v.pre matches Some(p) ==> version_of(s@).pre == Some((p.0@, p.1)),
{
    let m = v@;
    assert(m == version_of(s@));
    assert(m.numbers == v.numbers@);
}

/// The white space around a version and the `v`s before it do not count, in a comparison
/// either.
pub proof fn law_outer_marks_do_not_count(
    latest: &str,
    current: &str,
    bare: &str,
    c: char,
    r: bool,
    other: bool,
)
    requires
        call_ensures(compare_versions, (latest, current), r),
        call_ensures(compare_versions, (bare, current), other),
        latest@ == bare@.push(c) || latest@ == seq![c] + bare@,
        is_space(c) || (c == 'v' && latest@ == seq![c] + bare@ && (bare@.len() > 0 ==> !is_space(
            bare@[0],
        ))),
    ensures
        r == other,
{
    if is_space(c) {
        law_outer_space(c, bare@);
    } else {
        law_leading_v(bare@);
    }
}

/// Whatever stands before the first hyphen is the row of numbers, and what stands behind it
/// the pre-release: its tag up to the first dot, and the number behind that, or 0 where
/// none stands there. Without a hyphen all of it is the row of numbers.
pub proof fn law_parts_of_versions(main: Seq<char>, tag: Seq<char>, rest: Seq<char>)
    requires
        main.len() > 0,
        !main.contains('-'),
        !is_space(main[0]) && main[0] != 'v',
        !is_space(main.last()),
        !tag.contains('.'),
        tag.len() > 0 ==> !is_space(tag.last()),
        rest.len() > 0 ==> !is_space(rest.last()),
    ensures
        version_of(main).numbers == dotted_numbers(main),
        version_of(main).pre is None,
        version_of(main + seq!['-'] + tag).numbers == dotted_numbers(main),
        version_of(main + seq!['-'] + tag).pre == Some((lower_text(tag), 0u32)),
        version_of(main + seq!['-'] + (tag + seq!['.'] + rest)).numbers == dotted_numbers(main),
        number(rest) matches Some(n) ==> version_of(
            main + seq!['-'] + (tag + seq!['.'] + rest),
        ).pre == Some((lower_text(tag), n)),
        number(rest) is None ==> version_of(main + seq!['-'] + (tag + seq!['.'] + rest)).pre
            == Some((lower_text(tag), 0u32)),
{
    let pre = tag + seq!['.'] + rest;
    if rest.len() > 0 {
        assert(pre.last() == rest.last());
    }
    lemma_first_pos(main, '-');
    assert(trimmed(main) == main);
    assert(bare_version(main) == main);
    lemma_at_the_hyphen(main, pre);
    lemma_at_the_hyphen(main, tag);
    lemma_tag_ends_at_dot(tag, rest);
}

proof fn lemma_at_the_hyphen(main: Seq<char>, pre: Seq<char>)
    requires
        main.len() > 0,
        !main.contains('-'),
        !is_space(main[0]) && main[0] != 'v',
        pre.len() > 0 ==> !is_space(pre.last()),
    ensures
        version_of(main + seq!['-'] + pre) == (VersionModel {
            numbers: dotted_numbers(main),
            pre: Some(pre_release(pre)),
        }),
{
    let t = main + seq!['-'] + pre;
    assert(t[0] == main[0]);
    if pre.len() > 0 {
        assert(t.last() == pre.last());
    }
    assert(trimmed(t) == t);
    assert(bare_version(t) == t);
    lemma_first_pos(t, '-');
    assert(t[main.len() as int] == '-');
    assert forall|j: int| 0 <= j < main.len() implies t[j] != '-' by {
        assert(t[j] == main[j]);
        assert(main.contains(main[j]));
    }
    assert(first_pos(t, '-') == main.len());
    assert(t.take(main.len() as int) =~= main);
    assert(t.skip(main.len() as int + 1) =~= pre);
}

} // verus!
