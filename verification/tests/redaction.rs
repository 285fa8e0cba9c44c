//! What log lines show.

use antigravity_upstream::credentials::hide_credentials;
use antigravity_upstream::redact::{
    cap_log_text, mask_email, safe_truncate_str, sanitize_error_for_log,
};

#[test]
fn addresses_are_masked() {
    assert_eq!(mask_email("userexample@gmail.com"), "use***@gm***");
    assert_eq!(mask_email("ab@c"), "ab***@c***");
    assert_eq!(mask_email("@"), "***@***");
    assert_eq!(mask_email("a@b@c.d"), "a***@b@***");
    assert_eq!(mask_email("not-an-address"), "not-a***");
    assert_eq!(mask_email("abc"), "abc***");
    assert_eq!(mask_email(""), "***");
    assert_eq!(mask_email("用户名字@例子.com"), "用户名***@例子***");
}

#[test]
fn masks_are_short() {
    let long = format!("{}@{}", "x".repeat(500), "y".repeat(500));
    assert_eq!(mask_email(&long), "xxx***@yy***");
    assert_eq!(mask_email(&"z".repeat(500)), "zzzzz***");
}

#[test]
fn values_of_sensitive_keys_are_hidden() {
    for key in [
        "access_token",
        "refresh_token",
        "id_token",
        "authorization",
        "api_key",
        "secret",
        "password",
        "proxy_url",
        "http_proxy",
        "https_proxy",
    ] {
        assert_eq!(
            sanitize_error_for_log(&format!("x {}=abc123 y", key)),
            format!("x {}=<redacted> y", key)
        );
        let loud = key.to_uppercase();
        assert_eq!(
            sanitize_error_for_log(&format!("{} \t:\n abc:d=e, next", loud)),
            format!("{}=<redacted>, next", loud)
        );
    }
}

#[test]
fn values_end_at_quotes_brackets_commas_and_spaces() {
    for end in ["\"", "'", "\\", " ", "\t", "\u{3000}", ",", "}", "]"] {
        assert_eq!(
            sanitize_error_for_log(&format!("secret=abc{}rest", end)),
            format!("secret=<redacted>{}rest", end)
        );
        // No value at all: nothing to hide.
        let bare = format!("secret={}", end);
        assert_eq!(sanitize_error_for_log(&bare), bare);
    }
    assert_eq!(sanitize_error_for_log("secret=a)b;c>d"), "secret=<redacted>");
}

#[test]
fn several_values_are_hidden() {
    assert_eq!(
        sanitize_error_for_log("password=a,secret=b https_proxy=http://u:p@h:1/ end"),
        "password=<redacted>,secret=<redacted> https_proxy=<redacted> end"
    );
    assert_eq!(sanitize_error_for_log("my_secret = x"), "my_secret=<redacted>");
    // A key right behind a value's end.
    assert_eq!(sanitize_error_for_log("secret=x password"), "secret=<redacted> password");
    assert_eq!(sanitize_error_for_log("secretsecret=x"), "secretsecret=<redacted>");
}

#[test]
fn case_is_folded_as_unicode_folds_it() {
    assert_eq!(sanitize_error_for_log("\u{17f}ecret=x"), "\u{17f}ecret=<redacted>");
    assert_eq!(sanitize_error_for_log("api_\u{212a}ey=x"), "api_\u{212a}ey=<redacted>");
    assert_eq!(sanitize_error_for_log("pa\u{df}word=x"), "pa\u{df}word=x");
}

#[test]
fn bearer_tokens_are_hidden() {
    assert_eq!(sanitize_error_for_log("Bearer abc.def"), "Bearer <redacted>");
    assert_eq!(sanitize_error_for_log("BEARER \t x, bearer y"), "BEARER \t <redacted>, bearer <redacted>");
    assert_eq!(sanitize_error_for_log("bearer"), "bearer");
    assert_eq!(sanitize_error_for_log("bearer "), "bearer ");
    assert_eq!(sanitize_error_for_log("bearerabc"), "bearerabc");
    // The second word is a token and has one.
    assert_eq!(sanitize_error_for_log("bearer bearer x y"), "bearer <redacted> <redacted> y");
    assert_eq!(sanitize_error_for_log("\"Bearer abc\""), "\"Bearer <redacted>\"");
}

#[test]
fn the_scheme_of_an_authorization_belongs_to_its_value() {
    assert_eq!(sanitize_error_for_log("Authorization: Bearer abc123"), "Authorization=<redacted>");
    assert_eq!(
        sanitize_error_for_log("authorization=BASIC \t dXNlcjpwYXNz, next"),
        "authorization=<redacted>, next"
    );
    assert_eq!(
        sanitize_error_for_log("proxy-authorization: basic \"dXNl cjpw\" next"),
        "proxy-authorization=<redacted>\" next"
    );
    // A scheme with nothing behind it is the value.
    assert_eq!(sanitize_error_for_log("authorization: Basic"), "authorization=<redacted>");
    assert_eq!(sanitize_error_for_log("authorization: Bearer , x"), "authorization=<redacted> , x");
    assert_eq!(sanitize_error_for_log("authorization: Basics x"), "authorization=<redacted> x");
}

#[test]
fn other_keys_have_no_schemes() {
    assert_eq!(sanitize_error_for_log("secret: basic plan left"), "secret=<redacted> plan left");
    assert_eq!(sanitize_error_for_log("api_key=Basic x"), "api_key=<redacted> x");
    // What stands behind the word `bearer` is a token wherever the word stands.
    assert_eq!(
        sanitize_error_for_log("access_token: Bearer abc left"),
        "access_token=<redacted> <redacted> left"
    );
}

#[test]
fn quoted_values_are_hidden() {
    assert_eq!(
        sanitize_error_for_log(r#"{"access_token":"abc123"}"#),
        r#"{"access_token=<redacted>"}"#
    );
    assert_eq!(
        sanitize_error_for_log(r#"{ "password" : "a b, c}" , "user": "bob" }"#),
        r#"{ "password=<redacted>" , "user": "bob" }"#
    );
    assert_eq!(
        sanitize_error_for_log("{'secret': 'it\"s', 'id_token':'x'}"),
        "{'secret=<redacted>', 'id_token=<redacted>'}"
    );
    assert_eq!(
        sanitize_error_for_log(r#"{"authorization":"Bearer abc123","n":1}"#),
        r#"{"authorization=<redacted>","n":1}"#
    );
    assert_eq!(sanitize_error_for_log(r#"password="a b""#), r#"password=<redacted>""#);
    assert_eq!(sanitize_error_for_log(r#""api_key": 123, x"#), r#""api_key=<redacted>, x"#);
    assert_eq!(sanitize_error_for_log(r#"Bearer "abc 123" x"#), r#"Bearer <redacted>" x"#);
}

#[test]
fn escaped_quotes_do_not_end_a_value() {
    assert_eq!(
        sanitize_error_for_log(r#"{"password":"a\"b\\","user":"bob"}"#),
        r#"{"password=<redacted>","user":"bob"}"#
    );
    // JSON inside a JSON string.
    assert_eq!(
        sanitize_error_for_log(r#"body: {\"access_token\":\"abc 123\",\"n\":1}"#),
        r#"body: {\"access_token=<redacted>",\"n\":1}"#
    );
    assert_eq!(
        sanitize_error_for_log(r#"{\\'secret\\' : \\'abc\\'}"#),
        r#"{\\'secret=<redacted>'}"#
    );
}

#[test]
fn values_whose_quote_is_missing_are_hidden_to_the_end() {
    assert_eq!(sanitize_error_for_log("{\"access_token\":\"abc\n123"), "{\"access_token=<redacted>");
    assert_eq!(sanitize_error_for_log("secret='a b\\"), "secret=<redacted>\\");
    // Nothing between the quotes: nothing to hide.
    for text in [r#"{"password":""}"#, "secret=''", "secret=\""] {
        assert_eq!(sanitize_error_for_log(text), text);
    }
}

#[test]
fn the_backslash_before_a_closing_quote_goes_with_the_value() {
    assert_eq!(sanitize_error_for_log(r#"\"secret\":\"\""#), r#"\"secret=<redacted>""#);
}

#[test]
fn keys_behind_the_word_bearer_keep_nothing_of_their_values() {
    assert_eq!(sanitize_error_for_log("bearer secret=x"), "bearer <redacted>");
    assert_eq!(sanitize_error_for_log("bearer password: hunter2"), "bearer <redacted>");
    assert_eq!(sanitize_error_for_log("bearer secret : x"), "bearer <redacted>");
    assert_eq!(sanitize_error_for_log("bearer secret :x y"), "bearer <redacted> y");
    assert_eq!(
        sanitize_error_for_log("invalid Bearer access_token: ya29.x"),
        "invalid Bearer <redacted>"
    );
    assert_eq!(
        sanitize_error_for_log("bearer \"password\": \"hunter2\" y"),
        "bearer <redacted>\" y"
    );
}

#[test]
fn values_that_are_keys_keep_nothing_of_theirs() {
    assert_eq!(sanitize_error_for_log("secret: password: hunter2"), "secret=<redacted>");
    assert_eq!(sanitize_error_for_log("secret=password = hunter2 y"), "secret=<redacted> y");
    assert_eq!(
        sanitize_error_for_log("password: secret : id_token= x, y"),
        "password=<redacted>, y"
    );
    assert_eq!(sanitize_error_for_log("secret=bearer"), "secret=<redacted>");
    assert_eq!(sanitize_error_for_log("secret=bearer x"), "secret=<redacted> <redacted>");
    assert_eq!(
        sanitize_error_for_log("proxy_url=http://u:p@h Authorization: Bearer t; bearer u"),
        "proxy_url=<redacted> Authorization=<redacted> bearer <redacted>"
    );
}

#[test]
fn messages_that_differ_in_their_credentials_are_shown_alike() {
    let forms = [
        "bearer password: {} y",
        "x secret={}, Bearer {}",
        "Authorization: Basic {} next",
        "{\"access_token\": \"{} b\", \"n\": 1}",
        "secret: password: {}",
    ];
    for form in forms {
        let one = sanitize_error_for_log(&form.replace("{}", "hunter2"));
        let other = sanitize_error_for_log(&form.replace("{}", "Tr0ub4d"));
        assert_eq!(one, other);
        assert!(!one.contains("hunter2"));
    }
}

#[test]
fn hiding_again_changes_nothing() {
    for text in [
        "password=a,secret=b",
        "Bearer abc",
        "token=1",
        "x secret : y bearer z",
        "Authorization: Bearer abc",
        r#"{"access_token":"abc","secret" : 'x y'}"#,
        r#"{\"password\":\"x\"} bearer "q"#,
        "bearer bearer basic",
        "bearer password: hunter2",
        "secret: password : x y",
        "authorization: basic x bearer y",
        "secret  bearer  x",
    ] {
        let once = sanitize_error_for_log(text);
        assert_eq!(sanitize_error_for_log(&once), once);
    }
}

#[test]
fn clean_messages_are_kept() {
    for text in ["", "connection refused", "token expired at 12:00", "secret", "a = b"] {
        assert_eq!(sanitize_error_for_log(text), text);
        assert_eq!(hide_credentials(text), text);
    }
    let edge = "x".repeat(1000);
    assert_eq!(sanitize_error_for_log(&edge), edge);
}

#[test]
fn long_messages_are_cut_between_characters() {
    let over = "x".repeat(1001);
    assert_eq!(
        sanitize_error_for_log(&over),
        format!("{}... (truncated)", "x".repeat(1000))
    );
    // Three bytes each: 333 of them fit.
    let wide = "错".repeat(400);
    let line = sanitize_error_for_log(&wide);
    assert_eq!(line, format!("{}... (truncated)", "错".repeat(333)));
    assert!(line.len() <= 1015);
    assert_eq!(cap_log_text(&"é".repeat(500)), "é".repeat(500));
    assert_eq!(
        cap_log_text(&"é".repeat(501)),
        format!("{}... (truncated)", "é".repeat(500))
    );
}

#[test]
fn cuts_take_as_much_as_fits() {
    assert_eq!(safe_truncate_str("aé错😀", 0), "");
    assert_eq!(safe_truncate_str("aé错😀", 2), "a");
    assert_eq!(safe_truncate_str("aé错😀", 3), "aé");
    assert_eq!(safe_truncate_str("aé错😀", 5), "aé");
    assert_eq!(safe_truncate_str("aé错😀", 6), "aé错");
    assert_eq!(safe_truncate_str("aé错😀", 9), "aé错");
    assert_eq!(safe_truncate_str("aé错😀", 10), "aé错😀");
    assert_eq!(safe_truncate_str("aé错😀", 1000), "aé错😀");
    // A character that does not fit ends the text, even where a later one would fit.
    assert_eq!(safe_truncate_str("😀a", 3), "");
}

// ----- The patterns against their meaning -----

fn fold(c: char) -> char {
    match c {
        '\u{17f}' => 's',
        '\u{212a}' => 'k',
        _ => c.to_ascii_lowercase(),
    }
}

fn is_value_char(c: char) -> bool {
    !c.is_whitespace() && !"\"'\\,}]".contains(c)
}

fn is_quote(t: &[char], i: usize) -> bool {
    i < t.len() && (t[i] == '"' || t[i] == '\'')
}

fn skip(t: &[char], mut i: usize, go: impl Fn(char) -> bool) -> usize {
    while i < t.len() && go(t[i]) {
        i += 1;
    }
    i
}

fn word_at(t: &[char], i: usize, w: &str) -> bool {
    let n = w.chars().count();
    i + n <= t.len() && w.chars().zip(&t[i..]).all(|(a, b)| a == fold(*b))
}

fn value_end(t: &[char], v: usize) -> usize {
    if v >= t.len() {
        return v;
    }
    if is_quote(t, v) {
        let mut e = v + 1;
        while e < t.len() && t[e] != t[v] {
            if t[e] != '\\' {
                e += 1;
            } else if e + 1 < t.len() {
                e += 2;
            } else {
                break;
            }
        }
        return if e > v + 1 { e } else { v };
    }
    if t[v] == '\\' {
        let k = skip(t, v, |c| c == '\\');
        if is_quote(t, k) {
            let e = skip(t, k + 1, |c| c != t[k]);
            if e > k + 1 {
                return e;
            }
        }
        return v;
    }
    skip(t, v, is_value_char)
}

// The token behind a word that ends at `w`.
fn token(t: &[char], w: usize) -> Option<(usize, usize)> {
    let v = skip(t, w, char::is_whitespace);
    let e = value_end(t, v);
    if v > w && e > v {
        Some((v, e))
    } else {
        None
    }
}

// What is gone of a text, and where values start.
fn gone(t: &[char]) -> (Vec<bool>, Vec<bool>) {
    let keys = [
        "access_token", "refresh_token", "id_token", "authorization", "api_key", "secret",
        "password", "proxy_url", "http_proxy", "https_proxy",
    ];
    let mut gone = vec![false; t.len()];
    let mut values = vec![false; t.len()];
    for i in 0..t.len() {
        if word_at(t, i, "bearer") {
            if let Some((s, e)) = token(t, i + 6) {
                gone[s..e].fill(true);
            }
        }
        for key in keys {
            if !word_at(t, i, key) {
                continue;
            }
            let q = i + key.len();
            let k = skip(t, q, |c| c == '\\');
            let g = if is_quote(t, k) { k + 1 } else { q };
            let p = skip(t, g, char::is_whitespace);
            if p >= t.len() || (t[p] != ':' && t[p] != '=') {
                continue;
            }
            let v = skip(t, p + 1, char::is_whitespace);
            let e = value_end(t, v);
            if e > v {
                gone[q..e].fill(true);
                values[q] = true;
                for scheme in ["basic", "bearer"] {
                    if key == "authorization" && word_at(t, v, scheme) {
                        if let Some((_, e)) = token(t, v + scheme.len()) {
                            gone[q..e].fill(true);
                        }
                    }
                }
            }
        }
    }
    (gone, values)
}

fn check_against_meaning(text: &str) {
    let t: Vec<char> = text.chars().collect();
    let (gone, values) = gone(&t);
    let mut expected = String::new();
    for j in 0..t.len() {
        if !gone[j] {
            expected.push(t[j]);
        } else if j == 0 || !gone[j - 1] {
            expected.push_str(if values[j] { "=<redacted>" } else { "<redacted>" });
        }
    }
    let line = hide_credentials(text);
    assert_eq!(line, expected, "{:?}", text);
    assert_eq!(hide_credentials(&line), line, "{:?}", text);
}

const PIECES: [&str; 16] = [
    "secret", "PassWord", "bearer", "Basic", " ", "\n", "\"", "'", "\\", ":", "=", "x", ",",
    "}", "\u{17f}", "<redacted>",
];

// `form` with each two pieces in place of `?`.
fn check_pieces(form: &str) {
    for a in PIECES {
        for b in PIECES {
            check_against_meaning(&form.replace("?", &format!("{}{}", a, b)));
        }
    }
}

#[test]
fn keys_are_found_as_the_patterns_mean() {
    check_pieces("secret?");
}

#[test]
fn values_are_found_as_the_patterns_mean() {
    check_pieces("secret:?x\"y");
}

#[test]
fn tokens_are_found_as_the_patterns_mean() {
    check_pieces("bearer?x");
}

#[test]
fn schemes_are_found_as_the_patterns_mean() {
    check_pieces("Authorization:? x\"y");
}

#[test]
fn keys_behind_bearer_are_found_as_the_patterns_mean() {
    check_pieces("bearer ?: x");
}

#[test]
fn long_texts_are_hidden_as_the_patterns_mean() {
    let mut seed: u64 = 7;
    for _ in 0..400 {
        let mut text = String::new();
        for _ in 0..14 {
            seed = seed.wrapping_mul(6364136223846793005).wrapping_add(1442695040888963407);
            text.push_str(PIECES[(seed >> 60) as usize]);
        }
        check_against_meaning(&text);
    }
}
