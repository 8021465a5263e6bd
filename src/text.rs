//! Decimal text: reading integers, writing them back, and recognising
//! floating-point literals.
use vstd::prelude::*;
use vstd::string::*;

verus! {

pub open spec fn is_digit(c: char) -> bool {
    '0' <= c && c <= '9'
}

pub open spec fn digit_value(c: char) -> int {
    c as int - '0' as int
}

pub open spec fn all_digits(s: Seq<char>) -> bool {
    forall|i: int| 0 <= i < s.len() ==> #[trigger] is_digit(s[i])
}

/// The number that a run of decimal digits denotes.
pub open spec fn digits_value(s: Seq<char>) -> int
    decreases s.len(),
{
    if s.len() == 0 {
        0
    } else {
        digits_value(s.drop_last()) * 10 + digit_value(s.last())
    }
}

/// The value of a signed decimal numeral: an optional `+` or `-`, then one
/// or more ASCII digits.
pub open spec fn signed_numeral(s: Seq<char>) -> Option<int> {
    if s.len() > 0 && (s[0] == '-' || s[0] == '+') {
        let t = s.drop_first();
        if t.len() > 0 && all_digits(t) {
            if s[0] == '-' {
                Some(-digits_value(t))
            } else {
                Some(digits_value(t))
            }
        } else {
            None
        }
    } else if s.len() > 0 && all_digits(s) {
        Some(digits_value(s))
    } else {
        None
    }
}

/// The value of an unsigned decimal numeral: an optional `+`, then one or
/// more ASCII digits.
pub open spec fn unsigned_numeral(s: Seq<char>) -> Option<int> {
    if s.len() > 0 && s[0] == '-' {
        None
    } else {
        signed_numeral(s)
    }
}

/// What `i64::from_str` accepts: a signed numeral whose value fits.
pub open spec fn i64_of_text(s: Seq<char>) -> Option<i64> {
    match signed_numeral(s) {
        Some(v) => if i64::MIN <= v <= i64::MAX {
            Some(v as i64)
        } else {
            None
        },
        None => None,
    }
}

/// What `u32::from_str` accepts: an unsigned numeral whose value fits.
pub open spec fn u32_of_text(s: Seq<char>) -> Option<u32> {
    match unsigned_numeral(s) {
        Some(v) => if v <= u32::MAX {
            Some(v as u32)
        } else {
            None
        },
        None => None,
    }
}

pub open spec fn digit_char(d: int) -> char {
    if d == 0 {
        '0'
    } else if d == 1 {
        '1'
    } else if d == 2 {
        '2'
    } else if d == 3 {
        '3'
    } else if d == 4 {
        '4'
    } else if d == 5 {
        '5'
    } else if d == 6 {
        '6'
    } else if d == 7 {
        '7'
    } else if d == 8 {
        '8'
    } else {
        '9'
    }
}

/// The shortest decimal digits of `n`.
pub open spec fn decimal(n: nat) -> Seq<char>
    decreases n,
{
    if n < 10 {
        seq![digit_char(n as int)]
    } else {
        decimal(n / 10).push(digit_char((n % 10) as int))
    }
}

/// The decimal digits of `n`, with leading zeros up to `width` characters.
pub open spec fn padded(n: nat, width: nat) -> Seq<char> {
    let d = decimal(n);
    if d.len() >= width {
        d
    } else {
        Seq::new((width - d.len()) as nat, |i: int| '0') + d
    }
}

/// The decimal text of a signed integer, with `-` before a negative one.
pub open spec fn int_text(v: int) -> Seq<char> {
    if v < 0 {
        seq!['-'] + decimal((-v) as nat)
    } else {
        decimal(v as nat)
    }
}

/// The exponent of a float literal: `e` or `E`, an optional sign, digits.
pub open spec fn is_exponent(s: Seq<char>) -> bool {
    s.len() >= 2 && (s[0] == 'e' || s[0] == 'E') && {
        let t = s.drop_first();
        if t[0] == '+' || t[0] == '-' {
            t.len() >= 2 && all_digits(t.drop_first())
        } else {
            all_digits(t)
        }
    }
}

/// The mantissa of a float literal: digits and at most one `.`, with at
/// least one digit.
pub open spec fn is_mantissa(s: Seq<char>) -> bool {
    &&& forall|i: int| 0 <= i < s.len() ==> #[trigger] is_digit(s[i]) || s[i] == '.'
    &&& forall|i: int, j: int|
        0 <= i < s.len() && 0 <= j < s.len() && #[trigger] s[i] == '.' && #[trigger] s[j] == '.'
            ==> i == j
    &&& exists|i: int| 0 <= i < s.len() && #[trigger] is_digit(s[i])
}

/// `c` is `w`, or the upper-case ASCII letter of the lower-case letter `w`.
pub open spec fn same_letter(c: char, w: char) -> bool {
    c == w || ('A' <= c && c <= 'Z' && (c as u32) + 32 == (w as u32))
}

/// `s` spells `w` (written in lower case), ignoring ASCII case.
pub open spec fn spells(s: Seq<char>, w: Seq<char>) -> bool {
    s.len() == w.len() && forall|i: int| 0 <= i < s.len() ==> #[trigger] same_letter(s[i], w[i])
}

pub open spec fn is_exp_mark(c: char) -> bool {
    c == 'e' || c == 'E'
}

/// A float literal without its sign: `inf`, `infinity` or `nan` in any case,
/// or a mantissa with an optional exponent.
pub open spec fn is_unsigned_float(s: Seq<char>) -> bool {
    ||| spells(s, seq!['i', 'n', 'f'])
    ||| spells(s, seq!['n', 'a', 'n'])
    ||| spells(s, seq!['i', 'n', 'f', 'i', 'n', 'i', 't', 'y'])
    ||| is_mantissa(s)
    ||| exists|k: int| 0 < k < s.len() && is_mantissa(#[trigger] s.take(k)) && is_exponent(s.skip(k))
}

/// The grammar that `f64::from_str` accepts: an optional sign, then an
/// unsigned float literal.
pub open spec fn is_float_text(s: Seq<char>) -> bool {
    if s.len() > 0 && (s[0] == '+' || s[0] == '-') {
        is_unsigned_float(s.drop_first())
    } else {
        is_unsigned_float(s)
    }
}

pub proof fn lemma_digits_value_push(s: Seq<char>, c: char)
    ensures
        digits_value(s.push(c)) == digits_value(s) * 10 + digit_value(c),
{
    assert(s.push(c).drop_last() =~= s);
}

pub proof fn lemma_digits_value_nonneg(s: Seq<char>)
    requires
        all_digits(s),
    ensures
        digits_value(s) >= 0,
    decreases s.len(),
{
    if s.len() > 0 {
        assert(all_digits(s.drop_last())) by {
            assert forall|i: int| 0 <= i < s.drop_last().len() implies is_digit(
                s.drop_last()[i],
            ) by {
                assert(is_digit(s[i]));
            }
        }
        lemma_digits_value_nonneg(s.drop_last());
        assert(is_digit(s[s.len() - 1]));
    }
}

/// Relies on String::push: appends one character.
#[verifier::external_body]
pub(crate) fn push_char(s: &mut String, c: char)
    ensures
        final(s)@ == old(s)@.push(c),
{
    s.push(c)
}

/// Whether two strings hold the same characters.
pub fn same_text(a: &str, b: &str) -> (r: bool)
    ensures
        r == (a@ == b@),
{
    let n = a.unicode_len();
    if n != b.unicode_len() {
        return false;
    }
    let mut i: usize = 0;
    while i < n
        invariant
            n == a@.len(),
            n == b@.len(),
            i <= n,
            forall|j: int| 0 <= j < i ==> a@[j] == b@[j],
        decreases n - i,
    {
        if a.get_char(i) != b.get_char(i) {
            return false;
        }
        i = i + 1;
    }
    assert(a@ =~= b@);
    true
}

/// Reads the digits of `s` from `start` to its end. Returns whether there is
/// at least one character there and all are ASCII digits, and the value they
/// denote, saturated at `cap + 1`.
fn scan_digits(s: &str, start: usize, cap: u128) -> (r: (bool, u128))
    requires
        start <= s@.len(),
        cap < 0x1_0000_0000_0000_0000_0000,
    ensures
        r.0 == (start < s@.len() && all_digits(s@.skip(start as int))),
        r.0 ==> r.1 == if digits_value(s@.skip(start as int)) <= cap {
            digits_value(s@.skip(start as int))
        } else {
            cap + 1
        },
{
    let n = s.unicode_len();
    if start >= n {
        return (false, 0);
    }
    let mut acc: u128 = 0;
    let mut i: usize = start;
    while i < n
        invariant
            n == s@.len(),
            start <= i <= n,
            cap < 0x1_0000_0000_0000_0000_0000,
            all_digits(s@.subrange(start as int, i as int)),
            acc <= cap + 1,
            acc == if digits_value(s@.subrange(start as int, i as int)) <= cap {
                digits_value(s@.subrange(start as int, i as int))
            } else {
                cap + 1
            },
        decreases n - i,
    {
        let c = s.get_char(i);
        let ghost pre = s@.subrange(start as int, i as int);
        assert(s@.subrange(start as int, i + 1) =~= pre.push(c));
        if c < '0' || c > '9' {
            assert(!all_digits(s@.skip(start as int))) by {
                assert(s@.skip(start as int)[i - start] == c);
                assert(!is_digit(s@.skip(start as int)[i - start]));
            }
            return (false, 0);
        }
        let d = (c as u32 - '0' as u32) as u128;
        proof {
            lemma_digits_value_push(pre, c);
            lemma_digits_value_nonneg(pre);
        }
        if acc <= cap {
            let next = acc * 10 + d;
            if next <= cap {
                acc = next;
            } else {
                acc = cap + 1;
            }
        }
        proof {
            assert(all_digits(pre.push(c))) by {
                assert forall|j: int| 0 <= j < pre.push(c).len() implies is_digit(
                    #[trigger] pre.push(c)[j],
                ) by {
                    if j < pre.len() {
                        assert(is_digit(pre[j]));
                    }
                }
            }
        }
        i = i + 1;
    }
    assert(s@.subrange(start as int, n as int) =~= s@.skip(start as int));
    (true, acc)
}

/// Reads a signed 64-bit integer as `i64::from_str` does.
pub fn parse_i64(s: &str) -> (r: Option<i64>)
    ensures
        r == i64_of_text(s@),
{
    let n = s.unicode_len();
    if n == 0 {
        return None;
    }
    let c = s.get_char(0);
    let start: usize = if c == '-' || c == '+' {
        1
    } else {
        0
    };
    let cap: u128 = 0x8000_0000_0000_0000;
    let (ok, v) = scan_digits(s, start, cap);
    proof {
        if start == 1 {
            assert(s@.skip(1) =~= s@.drop_first());
        } else {
            assert(s@.skip(0) =~= s@);
        }
    }
    if !ok {
        return None;
    }
    proof {
        lemma_digits_value_nonneg(s@.skip(start as int));
    }
    if c == '-' {
        if v <= 0x8000_0000_0000_0000 {
            let m: i128 = v as i128;
            Some((0 - m) as i64)
        } else {
            None
        }
    } else {
        if v <= 0x7fff_ffff_ffff_ffff {
            Some(v as i64)
        } else {
            None
        }
    }
}

/// Reads an unsigned 32-bit integer as `u32::from_str` does.
pub fn parse_u32(s: &str) -> (r: Option<u32>)
    ensures
        r == u32_of_text(s@),
{
    let n = s.unicode_len();
    if n == 0 {
        return None;
    }
    let c = s.get_char(0);
    if c == '-' {
        return None;
    }
    let start: usize = if c == '+' {
        1
    } else {
        0
    };
    let (ok, v) = scan_digits(s, start, 0xffff_ffff);
    proof {
        if start == 1 {
            assert(s@.skip(1) =~= s@.drop_first());
        } else {
            assert(s@.skip(0) =~= s@);
        }
    }
    if !ok {
        return None;
    }
    proof {
        lemma_digits_value_nonneg(s@.skip(start as int));
    }
    if v <= 0xffff_ffff {
        Some(v as u32)
    } else {
        None
    }
}


pub fn digit_to_char(d: u64) -> (c: char)
    requires
        d < 10,
    ensures
        c == digit_char(d as int),
        is_digit(c),
        digit_value(c) == d,
{
    if d == 0 {
        '0'
    } else if d == 1 {
        '1'
    } else if d == 2 {
        '2'
    } else if d == 3 {
        '3'
    } else if d == 4 {
        '4'
    } else if d == 5 {
        '5'
    } else if d == 6 {
        '6'
    } else if d == 7 {
        '7'
    } else if d == 8 {
        '8'
    } else {
        '9'
    }
}

/// Writes the shortest decimal digits of `n` after the text in `out`.
pub fn push_decimal(out: &mut String, n: u64)
    ensures
        final(out)@ == old(out)@ + decimal(n as nat),
    decreases n,
{
    if n < 10 {
        push_char(out, digit_to_char(n));
        assert(old(out)@.push(digit_char(n as int)) =~= old(out)@ + decimal(n as nat));
    } else {
        push_decimal(out, n / 10);
        push_char(out, digit_to_char(n % 10));
        assert(old(out)@ + decimal((n / 10) as nat) + seq![digit_char((n % 10) as int)]
            =~= old(out)@ + decimal(n as nat));
    }
}

/// The decimal text of `n`, zero-padded to `width` characters.
pub fn padded_text(n: u64, width: usize) -> (r: String)
    ensures
        r@ == padded(n as nat, width as nat),
{
    let mut digits = String::new();
    push_decimal(&mut digits, n);
    assert(digits@ =~= decimal(n as nat));
    let len = digits.as_str().unicode_len();
    if len >= width {
        return digits;
    }
    let mut out = String::new();
    let mut i: usize = 0;
    let pad: usize = width - len;
    while i < pad
        invariant
            i <= pad,
            out@ =~= Seq::new(i as nat, |k: int| '0'),
        decreases pad - i,
    {
        push_char(&mut out, '0');
        i = i + 1;
    }
    out.append(digits.as_str());
    out
}

/// The decimal text of a signed 64-bit integer, as `i64::to_string` gives it.
pub fn int_to_text(v: i64) -> (r: String)
    ensures
        r@ == int_text(v as int),
{
    let mut out = String::new();
    if v < 0 {
        push_char(&mut out, '-');
        let m: i128 = 0 - (v as i128);
        push_decimal(&mut out, m as u64);
    } else {
        push_decimal(&mut out, v as u64);
    }
    out
}


/// Whether the characters of `s` from `start` on spell the lower-case word
/// `w`, ignoring ASCII case.
fn spells_from(s: &str, start: usize, w: &str) -> (r: bool)
    requires
        start <= s@.len(),
    ensures
        r == spells(s@.skip(start as int), w@),
{
    let n = s.unicode_len();
    let m = w.unicode_len();
    if n - start != m {
        return false;
    }
    let mut i: usize = 0;
    while i < m
        invariant
            n == s@.len(),
            m == w@.len(),
            start <= n,
            n - start == m,
            i <= m,
            forall|j: int| 0 <= j < i ==> #[trigger] same_letter(s@[start + j], w@[j]),
        decreases m - i,
    {
        let c = s.get_char(start + i);
        let x = w.get_char(i);
        let ok = c == x || ('A' <= c && c <= 'Z' && (c as u32) + 32 == (x as u32));
        if !ok {
            assert(!same_letter(s@.skip(start as int)[i as int], w@[i as int]));
            return false;
        }
        i = i + 1;
    }
    assert forall|j: int| 0 <= j < s@.skip(start as int).len() implies #[trigger] same_letter(
        s@.skip(start as int)[j],
        w@[j],
    ) by {
        assert(same_letter(s@[start + j], w@[j]));
    }
    true
}

/// Whether the characters of `s` in `[a, b)` form a mantissa.
fn mantissa_between(s: &str, a: usize, b: usize) -> (r: bool)
    requires
        a <= b <= s@.len(),
    ensures
        r == is_mantissa(s@.subrange(a as int, b as int)),
{
    let ghost t = s@.subrange(a as int, b as int);
    let mut dot: bool = false;
    let mut digit: bool = false;
    let mut i: usize = a;
    while i < b
        invariant
            a <= i <= b <= s@.len(),
            t == s@.subrange(a as int, b as int),
            forall|j: int| a <= j < i ==> #[trigger] is_digit(s@[j]) || s@[j] == '.',
            dot <==> exists|j: int| a <= j < i && #[trigger] s@[j] == '.',
            forall|j: int, k: int|
                a <= j < i && a <= k < i && #[trigger] s@[j] == '.' && #[trigger] s@[k] == '.'
                    ==> j == k,
            digit <==> exists|j: int| a <= j < i && #[trigger] is_digit(s@[j]),
        decreases b - i,
    {
        let c = s.get_char(i);
        if c == '.' {
            if dot {
                let ghost j = choose|j: int| a <= j < i && #[trigger] s@[j] == '.';
                assert(t[j - a] == '.' && t[i - a] == '.');
                return false;
            }
            dot = true;
            assert(!is_digit(s@[i as int]));
        } else if '0' <= c && c <= '9' {
            digit = true;
            assert(is_digit(s@[i as int]));
        } else {
            assert(!(is_digit(t[i - a]) || t[i - a] == '.'));
            return false;
        }
        i = i + 1;
    }
    if digit {
        let ghost j = choose|j: int| a <= j < b && #[trigger] is_digit(s@[j]);
        assert(is_digit(t[j - a]));
    } else {
        assert forall|j: int| 0 <= j < t.len() implies !is_digit(#[trigger] t[j]) by {
            assert(t[j] == s@[a + j]);
        }
    }
    assert forall|j: int| 0 <= j < t.len() implies #[trigger] is_digit(t[j]) || t[j] == '.' by {
        assert(t[j] == s@[a + j]);
    }
    assert forall|j: int, k: int|
        0 <= j < t.len() && 0 <= k < t.len() && #[trigger] t[j] == '.' && #[trigger] t[k] == '.'
            implies j == k by {
        assert(t[j] == s@[a + j] && t[k] == s@[a + k]);
    }
    digit
}

/// Whether the characters of `s` in `[a, b)` are all ASCII digits, and at
/// least one.
fn digits_between(s: &str, a: usize, b: usize) -> (r: bool)
    requires
        a <= b <= s@.len(),
    ensures
        r == (a < b && all_digits(s@.subrange(a as int, b as int))),
{
    if a == b {
        return false;
    }
    let mut i: usize = a;
    while i < b
        invariant
            a <= i <= b <= s@.len(),
            forall|j: int| a <= j < i ==> #[trigger] is_digit(s@[j]),
        decreases b - i,
    {
        let c = s.get_char(i);
        if c < '0' || c > '9' {
            assert(!is_digit(s@.subrange(a as int, b as int)[i - a]));
            return false;
        }
        i = i + 1;
    }
    assert forall|j: int| 0 <= j < s@.subrange(a as int, b as int).len() implies #[trigger] is_digit(
        s@.subrange(a as int, b as int)[j],
    ) by {
        assert(is_digit(s@[a + j]));
    }
    true
}

/// Whether the characters of `s` in `[a, b)` form an exponent.
fn exponent_between(s: &str, a: usize, b: usize) -> (r: bool)
    requires
        a <= b <= s@.len(),
    ensures
        r == is_exponent(s@.subrange(a as int, b as int)),
{
    let ghost t = s@.subrange(a as int, b as int);
    if b - a < 2 {
        return false;
    }
    let c = s.get_char(a);
    if c != 'e' && c != 'E' {
        return false;
    }
    let d = s.get_char(a + 1);
    assert(t.drop_first() =~= s@.subrange(a + 1, b as int));
    if d == '+' || d == '-' {
        assert(t.drop_first().drop_first() =~= s@.subrange(a + 2, b as int));
        digits_between(s, a + 2, b)
    } else {
        let r = digits_between(s, a + 1, b);
        r
    }
}

/// Whether `s` is a floating-point literal in the grammar of `f64::from_str`.
pub fn is_float_literal(s: &str) -> (r: bool)
    ensures
        r == is_float_text(s@),
{
    let n = s.unicode_len();
    let mut start: usize = 0;
    if n > 0 {
        let c = s.get_char(0);
        if c == '+' || c == '-' {
            start = 1;
        }
    }
    let ghost body = if start == 1 {
        s@.drop_first()
    } else {
        s@
    };
    assert(body =~= s@.skip(start as int));
    assert(body =~= s@.subrange(start as int, n as int));
    proof {
        reveal_strlit("inf");
        reveal_strlit("nan");
        reveal_strlit("infinity");
        assert("inf"@ =~= seq!['i', 'n', 'f']);
        assert("nan"@ =~= seq!['n', 'a', 'n']);
        assert("infinity"@ =~= seq!['i', 'n', 'f', 'i', 'n', 'i', 't', 'y']);
    }
    if spells_from(s, start, "inf") || spells_from(s, start, "nan") || spells_from(
        s,
        start,
        "infinity",
    ) {
        return true;
    }
    let mut k: usize = start;
    while k < n
        invariant
            start <= k <= n,
            n == s@.len(),
            forall|j: int| start <= j < k ==> !is_exp_mark(#[trigger] s@[j]),
        ensures
            start <= k <= n,
            forall|j: int| start <= j < k ==> !is_exp_mark(#[trigger] s@[j]),
            k < n ==> is_exp_mark(s@[k as int]),
        decreases n - k,
    {
        let c = s.get_char(k);
        if c == 'e' || c == 'E' {
            break;
        }
        k = k + 1;
    }
    if k == n {
        let r = mantissa_between(s, start, n);
        proof {
            if !r {
                assert forall|q: int| 0 < q < body.len() && is_mantissa(
                    #[trigger] body.take(q),
                ) implies !is_exponent(body.skip(q)) by {
                    assert(!is_exp_mark(s@[start + q]));
                    assert(body.skip(q)[0] == s@[start + q]);
                }
            }
        }
        return r;
    }
    let ghost kk = k - start;
    assert(body.take(kk) =~= s@.subrange(start as int, k as int));
    assert(body.skip(kk) =~= s@.subrange(k as int, n as int));
    let m = mantissa_between(s, start, k);
    let e = exponent_between(s, k, n);
    proof {
        assert(is_exp_mark(body[kk]));
        // a mantissa holds no exponent mark
        assert(!is_mantissa(body)) by {
            assert(!(is_digit(body[kk]) || body[kk] == '.'));
        }
        if !(m && e) {
            assert forall|q: int| 0 < q < body.len() && is_mantissa(
                #[trigger] body.take(q),
            ) implies !is_exponent(body.skip(q)) by {
                if q < kk {
                    assert(body.skip(q)[0] == s@[start + q]);
                    assert(!is_exp_mark(s@[start + q]));
                } else if q > kk {
                    assert(body.take(q)[kk] == body[kk]);
                    assert(!(is_digit(body.take(q)[kk]) || body.take(q)[kk] == '.'));
                }
            }
        }
    }
    m && e && k > start
}

pub proof fn lemma_digit_char(d: int)
    requires
        0 <= d < 10,
    ensures
        is_digit(digit_char(d)),
        digit_value(digit_char(d)) == d,
{
}

/// The digits of a number read back to it.
pub proof fn lemma_decimal(n: nat)
    ensures
        decimal(n).len() > 0,
        all_digits(decimal(n)),
        digits_value(decimal(n)) == n,
    decreases n,
{
    if n < 10 {
        lemma_digit_char(n as int);
        assert(decimal(n).drop_last() =~= Seq::<char>::empty());
        assert(digits_value(decimal(n)) == digits_value(Seq::<char>::empty()) * 10 + digit_value(
            digit_char(n as int),
        ));
    } else {
        lemma_decimal(n / 10);
        let d = decimal(n / 10);
        let c = digit_char((n % 10) as int);
        lemma_digits_value_push(d, c);
        lemma_digit_char((n % 10) as int);
        assert((n / 10) * 10 + n % 10 == n) by (nonlinear_arith);
        assert(decimal(n) == d.push(c));
        assert(digits_value(d.push(c)) == n);
        assert forall|i: int| 0 <= i < d.push(c).len() implies #[trigger] is_digit(d.push(c)[i]) by {
            if i < d.len() {
                assert(is_digit(d[i]));
            }
        }
    }
}

/// The decimal text of an integer reads back to it.
pub proof fn lemma_int_text_reads_back(v: i64)
    ensures
        i64_of_text(int_text(v as int)) == Some(v),
{
    if v < 0 {
        lemma_decimal((-v) as nat);
        let s = int_text(v as int);
        assert(s.drop_first() =~= decimal((-v) as nat));
    } else {
        lemma_decimal(v as nat);
        assert(is_digit(decimal(v as nat)[0]));
    }
}

/// A character that no numeral and no float literal holds.
pub open spec fn is_separator(c: char) -> bool {
    c == '/' || c == ':' || c == ' '
}

/// A text with a separator in it is no numeral.
pub proof fn lemma_separator_not_numeral(s: Seq<char>, k: int)
    requires
        0 <= k < s.len(),
        is_separator(s[k]),
    ensures
        signed_numeral(s) is None,
{
    if s[0] == '-' || s[0] == '+' {
        assert(s.drop_first()[k - 1] == s[k]);
        assert(!is_digit(s.drop_first()[k - 1]));
    } else {
        assert(!is_digit(s[k]));
    }
}

proof fn lemma_separator_not_unsigned_float(s: Seq<char>, k: int)
    requires
        0 <= k < s.len(),
        is_separator(s[k]),
    ensures
        !is_unsigned_float(s),
{
    assert(!same_letter(s[k], 'i') && !same_letter(s[k], 'n') && !same_letter(s[k], 'f')
        && !same_letter(s[k], 'a') && !same_letter(s[k], 't') && !same_letter(s[k], 'y'));
    assert(!spells(s, seq!['i', 'n', 'f'])) by {
        if spells(s, seq!['i', 'n', 'f']) {
            assert(same_letter(s[k], seq!['i', 'n', 'f'][k]));
        }
    }
    assert(!spells(s, seq!['n', 'a', 'n'])) by {
        if spells(s, seq!['n', 'a', 'n']) {
            assert(same_letter(s[k], seq!['n', 'a', 'n'][k]));
        }
    }
    assert(!spells(s, seq!['i', 'n', 'f', 'i', 'n', 'i', 't', 'y'])) by {
        if spells(s, seq!['i', 'n', 'f', 'i', 'n', 'i', 't', 'y']) {
            assert(same_letter(s[k], seq!['i', 'n', 'f', 'i', 'n', 'i', 't', 'y'][k]));
        }
    }
    assert(!is_mantissa(s)) by {
        assert(!(is_digit(s[k]) || s[k] == '.'));
    }
    assert forall|q: int| 0 < q < s.len() && is_mantissa(#[trigger] s.take(q)) implies !is_exponent(
        s.skip(q),
    ) by {
        if k < q {
            assert(s.take(q)[k] == s[k]);
            assert(!(is_digit(s.take(q)[k]) || s.take(q)[k] == '.'));
        } else {
            let t = s.skip(q);
            assert(t[k - q] == s[k]);
            if is_exponent(t) {
                if k == q {
                } else if t.drop_first()[0] == '+' || t.drop_first()[0] == '-' {
                    if k - q == 1 {
                    } else {
                        assert(t.drop_first().drop_first()[k - q - 2] == s[k]);
                        assert(!is_digit(t.drop_first().drop_first()[k - q - 2]));
                    }
                } else {
                    assert(t.drop_first()[k - q - 1] == s[k]);
                    assert(!is_digit(t.drop_first()[k - q - 1]));
                }
            }
        }
    }
}

/// A text with a separator in it is no float literal.
pub proof fn lemma_separator_not_float(s: Seq<char>, k: int)
    requires
        0 <= k < s.len(),
        is_separator(s[k]),
    ensures
        !is_float_text(s),
{
    if s.len() > 0 && (s[0] == '+' || s[0] == '-') {
        assert(s.drop_first()[k - 1] == s[k]);
        lemma_separator_not_unsigned_float(s.drop_first(), k - 1);
    } else {
        lemma_separator_not_unsigned_float(s, k);
    }
}

} // verus!
