//! Content-type helpers for request and response headers.
use crate::number::{all_digits, ascii_lower, digits_value, is_digit};
use crate::text::{
    count_leading, ends_with, leading_count, split_char, split_seq, starts_with, str_eq, views,
};
use vstd::prelude::*;

verus! {

/// The essence of a content type: the part before the first `;`.
pub open spec fn essence_spec(content_type: Seq<char>) -> Seq<char> {
    content_type.subrange(0, leading_count(content_type, ";"@, false) as int)
}

/// Whether an essence names JSON: `application/json` or `application/*+json`.
pub open spec fn is_json_essence(e: Seq<char>) -> bool {
    e == "application/json"@ || ("application/"@.len() <= e.len() && e.subrange(
        0,
        "application/"@.len() as int,
    ) == "application/"@ && "+json"@.len() <= e.len() && e.subrange(
        e.len() - "+json"@.len(),
        e.len() as int,
    ) == "+json"@)
}

/// The essence of a content type, without its parameters.
pub fn content_type_essence(content_type: &str) -> (r: &str)
    ensures
        r@ == essence_spec(content_type@),
{
    let n = count_leading(content_type, ";", false);
    content_type.substring_char(0, n)
}

/// Whether the content type is JSON or a JSON-based type.
pub fn check_json_content_type(content_type: &str) -> (r: bool)
    ensures
        r == is_json_essence(essence_spec(content_type@)),
{
    let essence = content_type_essence(content_type);
    str_eq(essence, "application/json") || (starts_with(essence, "application/") && ends_with(
        essence,
        "+json",
    ))
}

/// The data type that a content type stands for.
pub open spec fn data_type_spec(t: Seq<char>) -> Seq<char> {
    if t == "application/json"@ || t == "application/problem+json"@ {
        "json"@
    } else if t == "application/jsonlines"@ || t == "application/x-ndjson"@ {
        "ndjson"@
    } else if t == "application/msgpack"@ || t == "application/x-msgpack"@ {
        "msgpack"@
    } else if t == "application/octet-stream"@ {
        "bytes"@
    } else if t == "application/pdf"@ {
        "pdf"@
    } else if t == "application/x-www-form-urlencoded"@ {
        "form"@
    } else if t == "multipart/form-data"@ {
        "multipart"@
    } else if t == "text/csv"@ {
        "csv"@
    } else if t == "text/plain"@ {
        "text"@
    } else if is_json_essence(t) {
        "json"@
    } else {
        t
    }
}

/// The data type that a content type stands for; unknown types pass through.
pub fn get_data_type(content_type: &str) -> (r: &str)
    ensures
        r@ == data_type_spec(content_type@),
{
    let t = content_type;
    if str_eq(t, "application/json") || str_eq(t, "application/problem+json") {
        "json"
    } else if str_eq(t, "application/jsonlines") || str_eq(t, "application/x-ndjson") {
        "ndjson"
    } else if str_eq(t, "application/msgpack") || str_eq(t, "application/x-msgpack") {
        "msgpack"
    } else if str_eq(t, "application/octet-stream") {
        "bytes"
    } else if str_eq(t, "application/pdf") {
        "pdf"
    } else if str_eq(t, "application/x-www-form-urlencoded") {
        "form"
    } else if str_eq(t, "multipart/form-data") {
        "multipart"
    } else if str_eq(t, "text/csv") {
        "csv"
    } else if str_eq(t, "text/plain") {
        "text"
    } else if starts_with(t, "application/") && ends_with(t, "+json") {
        "json"
    } else {
        t
    }
}

/// Whether `c` is white space, as `char::is_whitespace` says.
pub open spec fn is_ws(c: char) -> bool {
    ('\u{9}' <= c && c <= '\u{d}') || c == ' ' || c == '\u{85}' || c == '\u{a0}' || c == '\u{1680}'
        || ('\u{2000}' <= c && c <= '\u{200a}') || c == '\u{2028}' || c == '\u{2029}' || c
        == '\u{202f}' || c == '\u{205f}' || c == '\u{3000}'
}

fn char_is_ws(c: char) -> (r: bool)
    ensures
        r == is_ws(c),
{
    ('\u{9}' <= c && c <= '\u{d}') || c == ' ' || c == '\u{85}' || c == '\u{a0}' || c == '\u{1680}'
        || ('\u{2000}' <= c && c <= '\u{200a}') || c == '\u{2028}' || c == '\u{2029}' || c
        == '\u{202f}' || c == '\u{205f}' || c == '\u{3000}'
}

/// The number of leading white-space characters.
pub open spec fn leading_ws(s: Seq<char>) -> nat
    decreases s.len(),
{
    if s.len() > 0 && is_ws(s[0]) {
        1 + leading_ws(s.drop_first())
    } else {
        0
    }
}

/// The number of trailing white-space characters.
pub open spec fn trailing_ws(s: Seq<char>) -> nat
    decreases s.len(),
{
    if s.len() > 0 && is_ws(s.last()) {
        1 + trailing_ws(s.drop_last())
    } else {
        0
    }
}

proof fn lemma_ws_bounds(s: Seq<char>)
    ensures
        leading_ws(s) <= s.len(),
        trailing_ws(s) <= s.len(),
    decreases s.len(),
{
    if s.len() > 0 {
        lemma_ws_bounds(s.drop_first());
        lemma_ws_bounds(s.drop_last());
    }
}

/// `s` without leading and trailing white space.
pub open spec fn trim_spec(s: Seq<char>) -> Seq<char> {
    let t = s.subrange(leading_ws(s) as int, s.len() as int);
    t.subrange(0, t.len() - trailing_ws(t))
}

/// Removes leading and trailing white space.
pub fn trim(s: &str) -> (r: &str)
    ensures
        r@ == trim_spec(s@),
{
    let n = s.unicode_len();
    let mut i: usize = n;
    let mut lead: usize = 0;
    while i > 0
        invariant
            n == s@.len(),
            i <= n,
            lead as nat == leading_ws(s@.subrange(i as int, n as int)),
            i + lead <= n,
        decreases i,
    {
        let ghost t = s@.subrange(i - 1, n as int);
        assert(t.drop_first() =~= s@.subrange(i as int, n as int));
        if char_is_ws(s.get_char(i - 1)) {
            lead = lead + 1;
        } else {
            lead = 0;
        }
        i = i - 1;
    }
    assert(s@.subrange(0, n as int) =~= s@);
    let t = s.substring_char(lead, n);
    let m = t.unicode_len();
    let mut j: usize = 0;
    let mut trail: usize = 0;
    while j < m
        invariant
            m == t@.len(),
            j <= m,
            trail as nat == trailing_ws(t@.subrange(0, j as int)),
            trail <= j,
        decreases m - j,
    {
        let ghost u = t@.subrange(0, j + 1);
        assert(u.drop_last() =~= t@.subrange(0, j as int));
        if char_is_ws(t.get_char(j)) {
            trail = trail + 1;
        } else {
            trail = 0;
        }
        j = j + 1;
    }
    assert(t@.subrange(0, m as int) =~= t@);
    t.substring_char(0, m - trail)
}

/// A quality value in thousandths, after RFC 9110: `0` with up to three
/// decimals, or `1` with up to three zero decimals.
pub open spec fn qvalue_spec(t: Seq<char>) -> Option<nat> {
    if t.len() == 0 || !(t[0] == '0' || t[0] == '1') {
        None
    } else if t.len() == 1 {
        Some(if t[0] == '1' { 1000nat } else { 0nat })
    } else if t[1] != '.' || t.len() > 5 || !all_digits(t.subrange(2, t.len() as int)) {
        None
    } else {
        let frac = t.subrange(2, t.len() as int);
        let v: nat = digits_value(frac) * if frac.len() == 0 {
            0nat
        } else if frac.len() == 1 {
            100nat
        } else if frac.len() == 2 {
            10nat
        } else {
            1nat
        };
        if t[0] == '1' {
            if v == 0 {
                Some(1000)
            } else {
                None
            }
        } else {
            Some(v)
        }
    }
}

/// Reads a quality value in thousandths.
fn parse_qvalue(t: &str) -> (r: Option<u32>)
    ensures
        match r {
            Some(q) => qvalue_spec(t@) == Some(q as nat),
            None => qvalue_spec(t@) is None,
        },
{
    let n = t.unicode_len();
    if n == 0 {
        return None;
    }
    let c0 = t.get_char(0);
    if c0 != '0' && c0 != '1' {
        return None;
    }
    let whole: u32 = if c0 == '1' { 1000 } else { 0 };
    if n == 1 {
        return Some(whole);
    }
    if t.get_char(1) != '.' || n > 5 {
        return None;
    }
    let ghost frac = t@.subrange(2, n as int);
    let mut v: u32 = 0;
    let mut i: usize = 2;
    while i < n
        invariant
            n == t@.len(),
            2 <= i <= n,
            n <= 5,
            frac == t@.subrange(2, n as int),
            all_digits(frac.subrange(0, i - 2)),
            v as nat == digits_value(frac.subrange(0, i - 2)),
            v < 1000,
            i - 2 == 0 ==> v == 0,
            i - 2 == 1 ==> v < 10,
            i - 2 == 2 ==> v < 100,
        decreases n - i,
    {
        let c = t.get_char(i);
        let ghost pre = frac.subrange(0, i - 2);
        let ghost next = frac.subrange(0, i - 1);
        assert(next.drop_last() =~= pre);
        assert(frac[i - 2] == c);
        if !('0' <= c && c <= '9') {
            assert(!is_digit(frac[i - 2]));
            return None;
        }
        v = v * 10 + (c as u32 - 48);
        i = i + 1;
        assert forall|j: int| 0 <= j < next.len() implies is_digit(#[trigger] next[j]) by {
            if j < pre.len() {
                assert(next[j] == pre[j]);
            }
        }
    }
    assert(frac.subrange(0, n - 2) =~= frac);
    let scaled: u32 = if n == 3 {
        v * 100
    } else if n == 4 {
        v * 10
    } else {
        v
    };
    if c0 == '1' {
        if scaled == 0 {
            Some(1000)
        } else {
            None
        }
    } else {
        Some(scaled)
    }
}

/// Whether two texts are equal up to the case of ASCII letters.
pub open spec fn eq_ascii_ci(a: Seq<char>, b: Seq<char>) -> bool {
    a.len() == b.len() && forall|i: int| 0 <= i < a.len() ==> ascii_lower(#[trigger] a[i]) == ascii_lower(b[i])
}

fn eq_ignore_ascii_case(a: &str, b: &str) -> (r: bool)
    ensures
        r == eq_ascii_ci(a@, b@),
{
    let n = a.unicode_len();
    if n != b.unicode_len() {
        return false;
    }
    let mut i: usize = 0;
    while i < n
        invariant
            n == a@.len(),
            n == b@.len(),
            i <= n,
            forall|j: int| 0 <= j < i ==> ascii_lower(#[trigger] a@[j]) == ascii_lower(b@[j]),
        decreases n - i,
    {
        let x = a.get_char(i);
        let y = b.get_char(i);
        let lx = if 'A' <= x && x <= 'Z' {
            ((x as u8) + 32) as char
        } else {
            x
        };
        let ly = if 'A' <= y && y <= 'Z' {
            ((y as u8) + 32) as char
        } else {
            y
        };
        if lx != ly {
            return false;
        }
        i = i + 1;
    }
    true
}

/// Whether a supported locale serves a requested language: equal up to
/// ASCII case, or beginning with it.
pub open spec fn serves(locale: Seq<char>, language: Seq<char>) -> bool {
    eq_ascii_ci(locale, language) || (language.len() <= locale.len() && locale.subrange(
        0,
        language.len() as int,
    ) == language)
}

/// The first of the first `n` locales that serves `language`.
pub open spec fn first_serving(locales: Seq<&str>, language: Seq<char>, n: int) -> Option<int>
    decreases n,
{
    if n <= 0 || n > locales.len() {
        None
    } else {
        match first_serving(locales, language, n - 1) {
            Some(j) => Some(j),
            None => if serves(locales[n - 1]@, language) {
                Some(n - 1)
            } else {
                None
            },
        }
    }
}

/// The requested language and its quality in an `Accept-Language` entry.
pub open spec fn entry_spec(e: Seq<char>) -> Option<(Seq<char>, nat)> {
    if e.contains(';') {
        let i = leading_count(e, ";"@, false) as int;
        let q = trim_spec(e.subrange(i + 1, e.len() as int));
        if q.len() >= 2 && q[0] == 'q' && q[1] == '=' {
            match qvalue_spec(q.subrange(2, q.len() as int)) {
                Some(v) => Some((trim_spec(e.subrange(0, i)), v)),
                None => None,
            }
        } else {
            None
        }
    } else {
        Some((trim_spec(e), 1000nat))
    }
}

/// The candidate of an entry: the locale that serves it, and its quality.
pub open spec fn candidate(e: Seq<char>, locales: Seq<&str>) -> Option<(int, nat)> {
    match entry_spec(e) {
        Some((language, q)) => match first_serving(locales, language, locales.len() as int) {
            Some(j) => Some((j, q)),
            None => None,
        },
        None => None,
    }
}

/// The best candidate among the first `n` entries: the highest quality, and
/// the earliest entry among equals.
pub open spec fn best_candidate(entries: Seq<Seq<char>>, locales: Seq<&str>, n: int) -> Option<(int, nat)>
    decreases n,
{
    if n <= 0 || n > entries.len() {
        None
    } else {
        let prev = best_candidate(entries, locales, n - 1);
        match candidate(entries[n - 1], locales) {
            Some((j, q)) => match prev {
                Some((_, bq)) => if q > bq {
                    Some((j, q))
                } else {
                    prev
                },
                None => Some((j, q)),
            },
            None => prev,
        }
    }
}

proof fn lemma_first_serving_range(locales: Seq<&str>, language: Seq<char>, n: int)
    ensures
        first_serving(locales, language, n) matches Some(j) ==> 0 <= j < locales.len(),
    decreases n,
{
    if n > 0 && n <= locales.len() {
        lemma_first_serving_range(locales, language, n - 1);
    }
}

/// The first supported locale that serves `language`.
fn serving_locale(locales: &[&str], language: &str) -> (r: Option<usize>)
    ensures
        match r {
            Some(j) => first_serving(locales@, language@, locales@.len() as int) == Some(j as int),
            None => first_serving(locales@, language@, locales@.len() as int) is None,
        },
{
    let mut j: usize = 0;
    while j < locales.len()
        invariant
            j <= locales@.len(),
            first_serving(locales@, language@, j as int) is None,
        decreases locales.len() - j,
    {
        let loc = locales[j];
        if eq_ignore_ascii_case(loc, language) || starts_with(loc, language) {
            proof {
                lemma_first_serving_stays(locales@, language@, j as int + 1, j as int);
            }
            return Some(j);
        }
        j = j + 1;
    }
    None
}

proof fn lemma_first_serving_stays(locales: Seq<&str>, language: Seq<char>, n: int, k: int)
    requires
        0 < n <= locales.len(),
        first_serving(locales, language, n) == Some(k),
    ensures
        first_serving(locales, language, locales.len() as int) == Some(k),
    decreases locales.len() - n,
{
    if n < locales.len() {
        lemma_first_serving_stays(locales, language, n + 1, k);
    }
}

/// Reads one `Accept-Language` entry.
fn parse_entry(e: &str) -> (r: Option<(&str, u32)>)
    ensures
        match r {
            Some((language, q)) => entry_spec(e@) == Some((language@, q as nat)),
            None => entry_spec(e@) is None,
        },
{
    let n = e.unicode_len();
    let i = count_leading(e, ";", false);
    proof {
        reveal_strlit(";");
        assert(";"@[0] == ';');
        lemma_semicolon(e@);
    }
    if i == n {
        return Some((trim(e), 1000));
    }
    let q = trim(e.substring_char(i + 1, n));
    let m = q.unicode_len();
    if m >= 2 && q.get_char(0) == 'q' && q.get_char(1) == '=' {
        match parse_qvalue(q.substring_char(2, m)) {
            Some(v) => Some((trim(e.substring_char(0, i)), v)),
            None => None,
        }
    } else {
        None
    }
}

proof fn lemma_semicolon(s: Seq<char>)
    ensures
        (leading_count(s, ";"@, false) == s.len()) == !s.contains(';'),
    decreases s.len(),
{
    reveal_strlit(";");
    assert(";"@[0] == ';');
    if s.len() > 0 {
        lemma_semicolon(s.drop_first());
        if s[0] != ';' {
            assert(!";"@.contains(s[0]));
            if s.drop_first().contains(';') {
                let j = choose|j: int| 0 <= j < s.drop_first().len() && s.drop_first()[j] == ';';
                assert(s[j + 1] == ';');
            }
            if s.contains(';') {
                let j = choose|j: int| 0 <= j < s.len() && s[j] == ';';
                assert(s.drop_first()[j - 1] == ';');
            }
        } else {
            assert(";"@.contains(s[0]));
        }
    }
}

/// Selects, from the supported locales, the one that the `Accept-Language`
/// header value prefers: each entry is served by the first locale equal to
/// its language up to ASCII case or beginning with it; the entry with the
/// highest quality wins, the earliest among equals. Entries whose quality is
/// not an RFC 9110 q-value are skipped.
pub fn select_language<'a>(header_value: &str, supported_locales: &[&'a str]) -> (r: Option<&'a str>)
    ensures
        match best_candidate(split_seq(header_value@, ','), supported_locales@, split_seq(header_value@, ',').len() as int) {
            Some((j, _)) => r is Some && 0 <= j < supported_locales@.len() && r->0@ == supported_locales@[j]@,
            None => r is None,
        },
{
    let entries = split_char(header_value, ',');
    let ghost es = split_seq(header_value@, ',');
    let mut best: Option<(usize, u32)> = None;
    let mut i: usize = 0;
    while i < entries.len()
        invariant
            views(entries@) == es,
            i <= entries@.len(),
            match best {
                Some((j, q)) => best_candidate(es, supported_locales@, i as int) == Some((j as int, q as nat))
                    && j < supported_locales@.len(),
                None => best_candidate(es, supported_locales@, i as int) is None,
            },
        decreases entries.len() - i,
    {
        assert(es[i as int] == entries@[i as int]@);
        match parse_entry(entries[i].as_str()) {
            Some((language, q)) => match serving_locale(supported_locales, language) {
                Some(j) => {
                    proof {
                        lemma_first_serving_range(supported_locales@, language@, supported_locales@.len() as int);
                    }
                    match best {
                        Some((_, bq)) => if q > bq {
                            best = Some((j, q));
                        },
                        None => {
                            best = Some((j, q));
                        },
                    }
                },
                None => {},
            },
            None => {},
        }
        i = i + 1;
    }
    match best {
        Some((j, _)) => Some(supported_locales[j]),
        None => None,
    }
}

} // verus!
