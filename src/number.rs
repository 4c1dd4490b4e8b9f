//! Decimal text of numbers: the grammar that a stored numeric attribute must
//! follow, and the integer text of timestamps.
use vstd::prelude::*;
use vstd::string::StrSliceExecFns;

verus! {

pub open spec fn is_digit(c: char) -> bool {
    '0' <= c && c <= '9'
}

pub open spec fn is_sign(c: char) -> bool {
    c == '+' || c == '-'
}

pub open spec fn is_exp_marker(c: char) -> bool {
    c == 'e' || c == 'E'
}

/// Every character of `t[a..b]` is a decimal digit.
pub open spec fn digits_between(t: Seq<char>, a: int, b: int) -> bool {
    forall|i: int| a <= i < b ==> is_digit(#[trigger] t[i])
}

/// `t[a..b]` is `Digit+`, `Digit+ '.' Digit*` or `Digit* '.' Digit+`.
pub open spec fn mantissa_at(t: Seq<char>, a: int, b: int) -> bool {
    ||| (a < b && digits_between(t, a, b))
    ||| exists|k: int|
        a <= k < b && #[trigger] t[k] == '.' && digits_between(t, a, k) && digits_between(
            t,
            k + 1,
            b,
        ) && b - a >= 2
}

/// `t[a..b]` is `Sign? Digit+`.
pub open spec fn exponent_at(t: Seq<char>, a: int, b: int) -> bool {
    let c = if a < b && is_sign(t[a]) {
        a + 1
    } else {
        a
    };
    c < b && digits_between(t, c, b)
}

/// `t[a..b]` is a mantissa with an optional exponent (`e` or `E`).
pub open spec fn decimal_at(t: Seq<char>, a: int, b: int) -> bool {
    ||| mantissa_at(t, a, b)
    ||| exists|k: int|
        a <= k < b && is_exp_marker(#[trigger] t[k]) && mantissa_at(t, a, k) && exponent_at(
            t,
            k + 1,
            b,
        )
}

/// `a` is `w` (a lower-case ASCII letter) in either case.
pub open spec fn same_letter(a: char, w: char) -> bool {
    a == w || (a as u32) + 32 == (w as u32)
}

/// `t[a..]` is the word `w`, ignoring ASCII case.
pub open spec fn word_at(t: Seq<char>, a: int, w: Seq<char>) -> bool {
    &&& t.len() - a == w.len()
    &&& forall|i: int| 0 <= i < w.len() ==> same_letter(#[trigger] t[a + i], w[i])
}

pub open spec fn special_at(t: Seq<char>, a: int) -> bool {
    ||| word_at(t, a, seq!['i', 'n', 'f'])
    ||| word_at(t, a, seq!['i', 'n', 'f', 'i', 'n', 'i', 't', 'y'])
    ||| word_at(t, a, seq!['n', 'a', 'n'])
}

pub open spec fn sign_len(t: Seq<char>) -> int {
    if t.len() > 0 && is_sign(t[0]) {
        1
    } else {
        0
    }
}

/// The text that a 64-bit float can be read from:
/// `Sign? ( 'inf' | 'infinity' | 'nan' | Number )`, letters in either case.
pub open spec fn is_float_text(t: Seq<char>) -> bool {
    decimal_at(t, sign_len(t), t.len() as int) || special_at(t, sign_len(t))
}

/// A written-out finite number: no `inf` or `nan`.
pub open spec fn is_finite_text(t: Seq<char>) -> bool {
    decimal_at(t, sign_len(t), t.len() as int)
}

/// A minus sign, then a non-zero digit before any exponent.
pub open spec fn is_negative_text(t: Seq<char>) -> bool {
    &&& t.len() > 0
    &&& t[0] == '-'
    &&& exists|k: int|
        1 <= k < t.len() && '1' <= #[trigger] t[k] && t[k] <= '9' && forall|j: int|
            1 <= j < k ==> !is_exp_marker(#[trigger] t[j])
}

/// A finite amount that is not below zero (`-0` is zero).
pub open spec fn is_amount_text(t: Seq<char>) -> bool {
    is_finite_text(t) && !is_negative_text(t)
}

pub open spec fn digit_value(c: char) -> int {
    (c as int) - ('0' as int)
}

pub open spec fn digits_value(s: Seq<char>) -> int
    decreases s.len(),
{
    if s.len() == 0 {
        0
    } else {
        digits_value(s.drop_last()) * 10 + digit_value(s.last())
    }
}

pub open spec fn all_digits(s: Seq<char>) -> bool {
    forall|i: int| 0 <= i < s.len() ==> is_digit(#[trigger] s[i])
}

/// The integer that `Sign? Digit+` denotes.
pub open spec fn int_of_text(s: Seq<char>) -> Option<int> {
    let d = s.skip(sign_len(s));
    if d.len() > 0 && all_digits(d) {
        if s[0] == '-' {
            Some(-digits_value(d))
        } else {
            Some(digits_value(d))
        }
    } else {
        None
    }
}

/// What a 64-bit signed integer is read as from `s`: `None` where the text is
/// no integer or the integer does not fit.
pub open spec fn i64_of_text(s: Seq<char>) -> Option<i64> {
    match int_of_text(s) {
        Some(v) => if i64::MIN <= v <= i64::MAX {
            Some(v as i64)
        } else {
            None
        },
        None => None,
    }
}

/// `s` is the decimal text of `v`: a minus sign exactly for negative values,
/// then the digits of its magnitude, without leading zeros.
pub open spec fn is_decimal_of(s: Seq<char>, v: int) -> bool {
    let d = if v < 0 {
        s.drop_first()
    } else {
        s
    };
    &&& (v < 0 <==> (s.len() > 0 && s[0] == '-'))
    &&& d.len() > 0
    &&& all_digits(d)
    &&& (d[0] == '0' ==> d.len() == 1)
    &&& digits_value(d) == if v < 0 {
        -v
    } else {
        v
    }
}

/// The decimal text of an integer reads back as that integer.
pub proof fn lemma_decimal_reads_back(s: Seq<char>, v: i64)
    requires
        is_decimal_of(s, v as int),
    ensures
        i64_of_text(s) == Some(v),
{
    if v < 0 {
        assert(s.skip(1) =~= s.drop_first());
    } else {
        assert(is_digit(s[0]));
        assert(s.skip(0) =~= s);
    }
}

/// Relies on `i64`'s `Display` (through `ToString`): decimal digits, with a
/// minus sign for negative values.
#[verifier::external_body]
pub(crate) fn i64_text(v: i64) -> (r: String)
    ensures
        is_decimal_of(r@, v as int),
{
    v.to_string()
}

/// Relies on `i64`'s `FromStr`: an optional sign and decimal digits, in range,
/// and nothing else.
#[verifier::external_body]
pub(crate) fn parse_i64(s: &str) -> (r: Option<i64>)
    ensures
        r == i64_of_text(s@),
{
    s.parse::<i64>().ok()
}

/// The end of the run of digits that starts at `a`, not past `b`.
fn digits_end(s: &str, a: usize, b: usize) -> (r: usize)
    requires
        a <= b <= s@.len(),
    ensures
        a <= r <= b,
        digits_between(s@, a as int, r as int),
        r < b ==> !is_digit(s@[r as int]),
{
    let mut i = a;
    while i < b
        invariant
            a <= i <= b <= s@.len(),
            digits_between(s@, a as int, i as int),
        decreases b - i,
    {
        let c = s.get_char(i);
        if !('0' <= c && c <= '9') {
            return i;
        }
        i = i + 1;
    }
    i
}

proof fn lemma_mantissa_chars(t: Seq<char>, a: int, b: int, j: int)
    requires
        mantissa_at(t, a, b),
        a <= j < b,
    ensures
        is_digit(t[j]) || t[j] == '.',
{
    if !(a < b && digits_between(t, a, b)) {
        let k = choose|k: int|
            a <= k < b && #[trigger] t[k] == '.' && digits_between(t, a, k) && digits_between(
                t,
                k + 1,
                b,
            ) && b - a >= 2;
        if j < k {
            assert(is_digit(t[j]));
        } else if j > k {
            assert(is_digit(t[j]));
        }
    }
}

fn is_mantissa(s: &str, a: usize, b: usize) -> (r: bool)
    requires
        a <= b <= s@.len(),
    ensures
        r == mantissa_at(s@, a as int, b as int),
{
    let r = digits_end(s, a, b);
    if r == b {
        return a < b;
    }
    if s.get_char(r) != '.' {
        assert(!mantissa_at(s@, a as int, b as int)) by {
            if mantissa_at(s@, a as int, b as int) {
                lemma_mantissa_chars(s@, a as int, b as int, r as int);
            }
        }
        return false;
    }
    let r2 = digits_end(s, r + 1, b);
    if r2 == b && b - a >= 2 {
        assert(s@[r as int] == '.');
        return true;
    }
    assert(!mantissa_at(s@, a as int, b as int)) by {
        assert(!is_digit(s@[r as int]));
        if exists|k: int|
            a <= k < b && #[trigger] s@[k] == '.' && digits_between(s@, a as int, k)
                && digits_between(s@, k + 1, b as int) && b - a >= 2 {
            let k = choose|k: int|
                a <= k < b && #[trigger] s@[k] == '.' && digits_between(s@, a as int, k)
                    && digits_between(s@, k + 1, b as int) && b - a >= 2;
            if k < r {
                assert(is_digit(s@[k]));
            } else if k > r {
                assert(is_digit(s@[r as int]));
            } else {
                assert(is_digit(s@[r2 as int]));
            }
        }
    }
    false
}

fn is_exponent(s: &str, a: usize, b: usize) -> (r: bool)
    requires
        a <= b <= s@.len(),
    ensures
        r == exponent_at(s@, a as int, b as int),
{
    let mut c = a;
    if a < b {
        let ch = s.get_char(a);
        if ch == '+' || ch == '-' {
            c = a + 1;
        }
    }
    let r = digits_end(s, c, b);
    c < r && r == b
}

fn is_decimal(s: &str, a: usize, b: usize) -> (r: bool)
    requires
        a <= b <= s@.len(),
    ensures
        r == decimal_at(s@, a as int, b as int),
{
    let mut k = a;
    while k < b
        invariant
            a <= k <= b <= s@.len(),
            forall|j: int| a <= j < k ==> !is_exp_marker(#[trigger] s@[j]),
        ensures
            a <= k <= b,
            forall|j: int| a <= j < k ==> !is_exp_marker(#[trigger] s@[j]),
            k < b ==> is_exp_marker(s@[k as int]),
        decreases b - k,
    {
        let c = s.get_char(k);
        if c == 'e' || c == 'E' {
            break;
        }
        k = k + 1;
    }
    if k == b {
        return is_mantissa(s, a, b);
    }
    let m = is_mantissa(s, a, k);
    let e = is_exponent(s, k + 1, b);
    proof {
        assert(is_exp_marker(s@[k as int]));
        if mantissa_at(s@, a as int, b as int) {
            lemma_mantissa_chars(s@, a as int, b as int, k as int);
        }
        if !(m && e) {
            if exists|j: int|
                a <= j < b && is_exp_marker(#[trigger] s@[j]) && mantissa_at(s@, a as int, j)
                    && exponent_at(s@, j + 1, b as int) {
                let j = choose|j: int|
                    a <= j < b && is_exp_marker(#[trigger] s@[j]) && mantissa_at(
                        s@,
                        a as int,
                        j,
                    ) && exponent_at(s@, j + 1, b as int);
                if j > k {
                    lemma_mantissa_chars(s@, a as int, j, k as int);
                }
            }
        }
    }
    m && e
}

fn is_word(s: &str, a: usize, w: &str) -> (r: bool)
    requires
        a <= s@.len(),
    ensures
        r == word_at(s@, a as int, w@),
{
    let n = s.unicode_len();
    let m = w.unicode_len();
    if n - a != m {
        return false;
    }
    let mut i: usize = 0;
    while i < m
        invariant
            n == s@.len(),
            m == w@.len(),
            n - a == m,
            i <= m,
            forall|j: int| 0 <= j < i ==> same_letter(#[trigger] s@[a + j], w@[j]),
        decreases m - i,
    {
        let c = s.get_char(a + i);
        let l = w.get_char(i);
        if !(c == l || (c as u32) + 32 == (l as u32)) {
            assert(!same_letter(s@[a + i], w@[i as int]));
            return false;
        }
        i = i + 1;
    }
    true
}

fn is_special(s: &str, a: usize) -> (r: bool)
    requires
        a <= s@.len(),
    ensures
        r == special_at(s@, a as int),
{
    proof {
        reveal_strlit("inf");
        reveal_strlit("infinity");
        reveal_strlit("nan");
        assert("inf"@ =~= seq!['i', 'n', 'f']);
        assert("infinity"@ =~= seq!['i', 'n', 'f', 'i', 'n', 'i', 't', 'y']);
        assert("nan"@ =~= seq!['n', 'a', 'n']);
    }
    is_word(s, a, "inf") || is_word(s, a, "infinity") || is_word(s, a, "nan")
}

fn sign_length(s: &str) -> (r: usize)
    ensures
        r == sign_len(s@),
{
    if s.unicode_len() > 0 {
        let c = s.get_char(0);
        if c == '+' || c == '-' {
            return 1;
        }
    }
    0
}

/// Whether `s` can be read as a 64-bit float.
pub fn is_float(s: &str) -> (r: bool)
    ensures
        r == is_float_text(s@),
{
    let a = sign_length(s);
    let n = s.unicode_len();
    is_decimal(s, a, n) || is_special(s, a)
}

fn is_negative(s: &str) -> (r: bool)
    ensures
        r == is_negative_text(s@),
{
    let n = s.unicode_len();
    if n == 0 || s.get_char(0) != '-' {
        return false;
    }
    let mut k: usize = 1;
    while k < n
        invariant
            n == s@.len(),
            1 <= k <= n,
            s@[0] == '-',
            forall|j: int| 1 <= j < k ==> !is_exp_marker(#[trigger] s@[j]),
            forall|j: int| 1 <= j < k ==> !('1' <= #[trigger] s@[j] && s@[j] <= '9'),
        decreases n - k,
    {
        let c = s.get_char(k);
        if '1' <= c && c <= '9' {
            return true;
        }
        if c == 'e' || c == 'E' {
            assert(!is_negative_text(s@)) by {
                if is_negative_text(s@) {
                    let j = choose|j: int|
                        1 <= j < s@.len() && '1' <= #[trigger] s@[j] && s@[j] <= '9' && forall|
                            i: int,
                        | 1 <= i < j ==> !is_exp_marker(#[trigger] s@[i]);
                    if j > k {
                        assert(!is_exp_marker(s@[k as int]));
                    }
                }
            }
            return false;
        }
        k = k + 1;
    }
    false
}

/// Whether `s` is a finite amount that is not below zero.
pub fn is_amount(s: &str) -> (r: bool)
    ensures
        r == is_amount_text(s@),
{
    let a = sign_length(s);
    let n = s.unicode_len();
    is_decimal(s, a, n) && !is_negative(s)
}

} // verus!
