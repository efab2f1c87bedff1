//! Which texts parse as integers or floating-point numbers, and decimal
//! rendering of integers.
use vstd::prelude::*;

verus! {

pub open spec fn is_digit(c: char) -> bool {
    '0' <= c && c <= '9'
}

pub open spec fn all_digits(s: Seq<char>) -> bool {
    forall|i: int| 0 <= i < s.len() ==> is_digit(#[trigger] s[i])
}

/// The number that a string of decimal digits denotes.
pub open spec fn digits_value(s: Seq<char>) -> nat
    decreases s.len(),
{
    if s.len() == 0 {
        0
    } else {
        digits_value(s.drop_last()) * 10 + ((s.last() as nat) - ('0' as nat)) as nat
    }
}

/// `s` without a leading sign character from `signs`.
pub open spec fn unsigned_part(s: Seq<char>, minus: bool) -> Seq<char> {
    if s.len() > 0 && (s[0] == '+' || (minus && s[0] == '-')) {
        s.drop_first()
    } else {
        s
    }
}

/// Whether the text parses as a `u64`: an optional `+`, then digits whose
/// value fits.
pub open spec fn parses_u64(s: Seq<char>) -> bool {
    let t = unsigned_part(s, false);
    t.len() > 0 && all_digits(t) && digits_value(t) <= u64::MAX
}

/// Whether the text parses as an `i64`: an optional sign, then digits whose
/// signed value fits.
pub open spec fn parses_i64(s: Seq<char>) -> bool {
    let t = unsigned_part(s, true);
    let bound: nat = if s.len() > 0 && s[0] == '-' {
        0x8000_0000_0000_0000
    } else {
        0x7fff_ffff_ffff_ffff
    };
    t.len() > 0 && all_digits(t) && digits_value(t) <= bound
}

/// The number of leading digits of `s`.
pub open spec fn leading_digits(s: Seq<char>) -> nat
    decreases s.len(),
{
    if s.len() > 0 && is_digit(s[0]) {
        1 + leading_digits(s.drop_first())
    } else {
        0
    }
}

/// `c` in lower case, for ASCII letters.
pub open spec fn ascii_lower(c: char) -> char {
    if 'A' <= c && c <= 'Z' {
        (((c as u8) + 32) as u8) as char
    } else {
        c
    }
}

/// Whether `s` equals `w` up to the case of ASCII letters (`w` in lower case).
pub open spec fn eq_ignore_case(s: Seq<char>, w: Seq<char>) -> bool {
    s.len() == w.len() && forall|i: int| 0 <= i < s.len() ==> ascii_lower(#[trigger] s[i]) == w[i]
}

/// Whether `s` is an exponent: `e` or `E`, an optional sign, then digits.
pub open spec fn is_exponent(s: Seq<char>) -> bool {
    s.len() > 0 && (s[0] == 'e' || s[0] == 'E') && {
        let t = unsigned_part(s.drop_first(), true);
        t.len() > 0 && all_digits(t)
    }
}

/// Whether `t` is a decimal number: digits, an optional fraction, at least one
/// digit in all, and an optional exponent.
pub open spec fn is_decimal(t: Seq<char>) -> bool {
    let a = leading_digits(t);
    let rest = t.subrange(a as int, t.len() as int);
    if rest.len() > 0 && rest[0] == '.' {
        let frac = rest.drop_first();
        let b = leading_digits(frac);
        let tail = frac.subrange(b as int, frac.len() as int);
        a + b > 0 && (tail.len() == 0 || is_exponent(tail))
    } else {
        a > 0 && (rest.len() == 0 || is_exponent(rest))
    }
}

/// Whether the text parses as a floating-point number: an optional sign, then
/// `inf`, `infinity` or `nan` in any case, or a decimal number.
pub open spec fn parses_float(s: Seq<char>) -> bool {
    let t = unsigned_part(s, true);
    eq_ignore_case(t, seq!['i', 'n', 'f']) || eq_ignore_case(
        t,
        seq!['i', 'n', 'f', 'i', 'n', 'i', 't', 'y'],
    ) || eq_ignore_case(t, seq!['n', 'a', 'n']) || is_decimal(t)
}

proof fn lemma_digits_value_grows(s: Seq<char>, i: int)
    requires
        0 <= i <= s.len(),
    ensures
        digits_value(s.subrange(0, i)) <= digits_value(s),
    decreases s.len() - i,
{
    if i < s.len() {
        lemma_digits_value_grows(s, i + 1);
        assert(s.subrange(0, i + 1).drop_last() =~= s.subrange(0, i));
    } else {
        assert(s.subrange(0, i) =~= s);
    }
}

/// Whether the digits of `t` from index `from` on are all digits with a value
/// of at most `bound`.
fn digits_within(t: &str, from: usize, bound: u64) -> (r: Option<u64>)
    requires
        from <= t@.len(),
    ensures
        ({
            let d = t@.subrange(from as int, t@.len() as int);
            &&& r is Some == (d.len() > 0 && all_digits(d) && digits_value(d) <= bound)
            &&& r matches Some(v) ==> v as nat == digits_value(d)
        }),
{
    let n = t.unicode_len();
    let ghost d = t@.subrange(from as int, n as int);
    if from == n {
        return None;
    }
    let mut acc: u64 = 0;
    let mut i: usize = from;
    while i < n
        invariant
            n == t@.len(),
            from <= i <= n,
            d == t@.subrange(from as int, n as int),
            all_digits(d.subrange(0, i - from)),
            acc as nat == digits_value(d.subrange(0, i - from)),
            acc <= bound,
        decreases n - i,
    {
        let c = t.get_char(i);
        let ghost pre = d.subrange(0, i - from);
        let ghost next = d.subrange(0, i - from + 1);
        assert(next.drop_last() =~= pre);
        assert(next.last() == c);
        if !('0' <= c && c <= '9') {
            assert(!all_digits(d)) by {
                assert(d[i - from] == c);
            }
            return None;
        }
        let v = (c as u32 - '0' as u32) as u64;
        if v > bound || acc > (bound - v) / 10 {
            proof {
                lemma_digits_value_grows(d, i - from + 1);
                assert(digits_value(next) == acc * 10 + v);
                if v <= bound {
                    assert(acc * 10 + v > bound) by (nonlinear_arith)
                        requires
                            acc > (bound - v) / 10,
                            v <= bound,
                    ;
                }
            }
            return None;
        }
        proof {
            assert((acc * 10 + v) <= bound) by (nonlinear_arith)
                requires
                    acc <= (bound - v) / 10,
                    v <= bound,
            ;
            assert forall|j: int| 0 <= j < next.len() implies is_digit(#[trigger] next[j]) by {
                if j < pre.len() {
                    assert(next[j] == pre[j]);
                }
            }
        }
        acc = acc * 10 + v;
        i = i + 1;
    }
    assert(d.subrange(0, n - from) =~= d);
    Some(acc)
}

/// Whether the text parses as a `u64`.
pub fn is_u64_text(s: &str) -> (r: bool)
    ensures
        r == parses_u64(s@),
{
    let n = s.unicode_len();
    if n > 0 && s.get_char(0) == '+' {
        assert(s@.drop_first() =~= s@.subrange(1, n as int));
        digits_within(s, 1, u64::MAX).is_some()
    } else {
        assert(s@ =~= s@.subrange(0, n as int));
        digits_within(s, 0, u64::MAX).is_some()
    }
}

/// The value of a text that parses as an `i64`.
pub open spec fn i64_value(s: Seq<char>) -> int {
    if s.len() > 0 && s[0] == '-' {
        -digits_value(unsigned_part(s, true))
    } else {
        digits_value(unsigned_part(s, true)) as int
    }
}

/// Parses the text as an `i64`.
pub fn parse_i64(s: &str) -> (r: Option<i64>)
    ensures
        r is Some == parses_i64(s@),
        r matches Some(v) ==> v as int == i64_value(s@),
{
    let n = s.unicode_len();
    if n > 0 && s.get_char(0) == '-' {
        assert(s@.drop_first() =~= s@.subrange(1, n as int));
        match digits_within(s, 1, 0x8000_0000_0000_0000) {
            Some(v) => if v == 0x8000_0000_0000_0000 {
                Some(i64::MIN)
            } else {
                Some(-(v as i64))
            },
            None => None,
        }
    } else if n > 0 && s.get_char(0) == '+' {
        assert(s@.drop_first() =~= s@.subrange(1, n as int));
        match digits_within(s, 1, 0x7fff_ffff_ffff_ffff) {
            Some(v) => Some(v as i64),
            None => None,
        }
    } else {
        assert(s@ =~= s@.subrange(0, n as int));
        match digits_within(s, 0, 0x7fff_ffff_ffff_ffff) {
            Some(v) => Some(v as i64),
            None => None,
        }
    }
}

/// Whether the text parses as an `i64`.
pub fn is_i64_text(s: &str) -> (r: bool)
    ensures
        r == parses_i64(s@),
{
    parse_i64(s).is_some()
}

/// The decimal text of a signed number.
pub open spec fn signed_decimal(n: int) -> Seq<char> {
    if n < 0 {
        seq!['-'] + decimal((-n) as nat)
    } else {
        decimal(n as nat)
    }
}

/// Renders a signed number in decimal.
pub fn i64_text(n: i64) -> (r: String)
    ensures
        r@ == signed_decimal(n as int),
{
    if n < 0 {
        let m: u64 = if n == i64::MIN {
            0x8000_0000_0000_0000
        } else {
            (-n) as u64
        };
        let mut out = String::new();
        crate::text::push_char(&mut out, '-');
        out.append(u64_text(m).as_str());
        assert(out@ =~= signed_decimal(n as int));
        out
    } else {
        u64_text(n as u64)
    }
}

/// The number of digits of `s` from index `from` on, before the first non-digit.
fn count_digits(s: &str, from: usize) -> (r: usize)
    requires
        from <= s@.len(),
    ensures
        r as nat == leading_digits(s@.subrange(from as int, s@.len() as int)),
        from + r <= s@.len(),
{
    let n = s.unicode_len();
    let mut i: usize = n;
    let mut count: usize = 0;
    // Scan from the end so that the count matches the recursive definition.
    while i > from
        invariant
            n == s@.len(),
            from <= i <= n,
            count as nat == leading_digits(s@.subrange(i as int, n as int)),
            i + count <= n,
        decreases i,
    {
        let c = s.get_char(i - 1);
        let ghost t = s@.subrange(i - 1, n as int);
        assert(t.drop_first() =~= s@.subrange(i as int, n as int));
        if '0' <= c && c <= '9' {
            count = count + 1;
        } else {
            count = 0;
        }
        i = i - 1;
    }
    count
}

/// Whether `s` from index `from` on is an exponent.
fn exponent_at(s: &str, from: usize) -> (r: bool)
    requires
        from <= s@.len(),
    ensures
        r == is_exponent(s@.subrange(from as int, s@.len() as int)),
{
    let n = s.unicode_len();
    let ghost t = s@.subrange(from as int, n as int);
    if from == n {
        return false;
    }
    let c = s.get_char(from);
    if c != 'e' && c != 'E' {
        return false;
    }
    let mut k: usize = from + 1;
    if k < n && (s.get_char(k) == '+' || s.get_char(k) == '-') {
        k = k + 1;
    }
    let ghost u = unsigned_part(t.drop_first(), true);
    assert(u =~= s@.subrange(k as int, n as int));
    let m = count_digits(s, k);
    let r = k < n && k + m == n;
    proof {
        lemma_leading_digits_all(s@.subrange(k as int, n as int));
    }
    r
}

proof fn lemma_leading_digits_all(s: Seq<char>)
    ensures
        leading_digits(s) <= s.len(),
        all_digits(s.subrange(0, leading_digits(s) as int)),
        (leading_digits(s) == s.len()) == all_digits(s),
    decreases s.len(),
{
    if s.len() > 0 {
        lemma_leading_digits_all(s.drop_first());
        if is_digit(s[0]) {
            assert forall|i: int| 0 <= i < leading_digits(s) implies is_digit(
                #[trigger] s.subrange(0, leading_digits(s) as int)[i],
            ) by {
                if i > 0 {
                    assert(s.subrange(0, leading_digits(s) as int)[i] == s.drop_first().subrange(
                        0,
                        leading_digits(s.drop_first()) as int,
                    )[i - 1]);
                }
            }
            if all_digits(s) {
                assert(all_digits(s.drop_first())) by {
                    assert forall|i: int| 0 <= i < s.drop_first().len() implies is_digit(
                        #[trigger] s.drop_first()[i],
                    ) by {
                        assert(s.drop_first()[i] == s[i + 1]);
                    }
                }
            } else {
                assert(!all_digits(s.drop_first())) by {
                    let j = choose|j: int| 0 <= j < s.len() && !is_digit(#[trigger] s[j]);
                    assert(s.drop_first()[j - 1] == s[j]);
                }
            }
        } else {
            assert(!all_digits(s)) by {
                assert(!is_digit(s[0]));
            }
        }
    }
}

/// Whether `s` from index `from` on equals the lower-case word `w` up to case.
fn word_at(s: &str, from: usize, w: &str) -> (r: bool)
    requires
        from <= s@.len(),
    ensures
        r == eq_ignore_case(s@.subrange(from as int, s@.len() as int), w@),
{
    let n = s.unicode_len();
    let m = w.unicode_len();
    if n - from != m {
        return false;
    }
    let ghost t = s@.subrange(from as int, n as int);
    let mut i: usize = 0;
    while i < m
        invariant
            n == s@.len(),
            m == w@.len(),
            n - from == m,
            from <= n,
            t == s@.subrange(from as int, n as int),
            i <= m,
            forall|j: int| 0 <= j < i ==> ascii_lower(#[trigger] t[j]) == w@[j],
        decreases m - i,
    {
        let c = s.get_char(from + i);
        let lower = if 'A' <= c && c <= 'Z' {
            ((c as u8) + 32) as char
        } else {
            c
        };
        assert(t[i as int] == c);
        if lower != w.get_char(i) {
            return false;
        }
        i = i + 1;
    }
    true
}

/// Whether the text parses as a floating-point number.
pub fn is_float_text(s: &str) -> (r: bool)
    ensures
        r == parses_float(s@),
{
    let n = s.unicode_len();
    let start: usize = if n > 0 && (s.get_char(0) == '+' || s.get_char(0) == '-') {
        1
    } else {
        0
    };
    let ghost t = unsigned_part(s@, true);
    assert(t =~= s@.subrange(start as int, n as int));
    proof {
        reveal_strlit("inf");
        reveal_strlit("infinity");
        reveal_strlit("nan");
    }
    assert("inf"@ =~= seq!['i', 'n', 'f']);
    assert("infinity"@ =~= seq!['i', 'n', 'f', 'i', 'n', 'i', 't', 'y']);
    assert("nan"@ =~= seq!['n', 'a', 'n']);
    if word_at(s, start, "inf") || word_at(s, start, "infinity") || word_at(s, start, "nan") {
        return true;
    }
    let a = count_digits(s, start);
    let p = start + a;
    assert(t.subrange(a as int, t.len() as int) =~= s@.subrange(p as int, n as int));
    if p < n && s.get_char(p) == '.' {
        let ghost frac = s@.subrange(p + 1, n as int);
        assert(t.subrange(a as int, t.len() as int).drop_first() =~= frac);
        let b = count_digits(s, p + 1);
        let q = p + 1 + b;
        assert(frac.subrange(b as int, frac.len() as int) =~= s@.subrange(q as int, n as int));
        a + b > 0 && (q == n || exponent_at(s, q))
    } else {
        a > 0 && (p == n || exponent_at(s, p))
    }
}

/// The decimal digits of `n`.
pub open spec fn decimal(n: nat) -> Seq<char>
    decreases n,
{
    if n < 10 {
        seq![(48 + n) as u8 as char]
    } else {
        decimal(n / 10).push((48 + n % 10) as u8 as char)
    }
}

/// Renders `n` in decimal.
pub fn u64_text(n: u64) -> (r: String)
    ensures
        r@ == decimal(n as nat),
    decreases n,
{
    if n < 10 {
        let mut out = String::new();
        crate::text::push_char(&mut out, (48u8 + n as u8) as char);
        assert(out@ =~= decimal(n as nat));
        out
    } else {
        let mut out = u64_text(n / 10);
        crate::text::push_char(&mut out, (48u8 + (n % 10) as u8) as char);
        out
    }
}

} // verus!
