//! Character-level text helpers: equality, prefixes, lexicographic order,
//! decimal integer parsing and printing.
use vstd::prelude::*;
use vstd::string::*;

verus! {

/// Integer division rounding toward zero, as Rust's `/` on integers (for `d > 0`).
pub open spec fn trunc_div(x: int, d: int) -> int {
    if x >= 0 {
        x / d
    } else {
        -((-x) / d)
    }
}

/// The remainder that goes with `trunc_div`, as Rust's `%` (sign of `x`).
pub open spec fn trunc_rem(x: int, d: int) -> int {
    x - d * trunc_div(x, d)
}

/// `prefix` is a prefix of `s`.
pub open spec fn is_prefix(prefix: Seq<char>, s: Seq<char>) -> bool {
    prefix.len() <= s.len() && s.subrange(0, prefix.len() as int) =~= prefix
}

/// Strict lexicographic order on character sequences, comparing code points;
/// this is the order of `str` (byte order of UTF-8 equals code point order).
pub open spec fn lex_lt(a: Seq<char>, b: Seq<char>) -> bool
    decreases a.len(),
{
    if a.len() == 0 {
        b.len() > 0
    } else if b.len() == 0 {
        false
    } else if a[0] != b[0] {
        (a[0] as int) < (b[0] as int)
    } else {
        lex_lt(a.drop_first(), b.drop_first())
    }
}

/// No text comes before itself.
pub proof fn lemma_lex_irreflexive(a: Seq<char>)
    ensures
        !lex_lt(a, a),
    decreases a.len(),
{
    if a.len() > 0 {
        lemma_lex_irreflexive(a.drop_first());
    }
}

/// Of two different texts, one comes before the other.
pub proof fn lemma_lex_total(a: Seq<char>, b: Seq<char>)
    ensures
        lex_lt(a, b) || lex_lt(b, a) || a == b,
    decreases a.len(),
{
    if a.len() == 0 && b.len() == 0 {
        assert(a =~= b);
    } else if a.len() > 0 && b.len() > 0 && a[0] != b[0] {
    } else if a.len() > 0 && b.len() > 0 && a[0] == b[0] {
        lemma_lex_total(a.drop_first(), b.drop_first());
        if a.drop_first() == b.drop_first() {
            assert(a.len() == a.drop_first().len() + 1);
            assert(b.len() == b.drop_first().len() + 1);
            assert(a =~= b) by {
                assert forall|i: int| 0 <= i < a.len() implies a[i] == b[i] by {
                    if i > 0 {
                        assert(a[i] == a.drop_first()[i - 1]);
                        assert(b[i] == b.drop_first()[i - 1]);
                    }
                }
            }
        }
    }
}

/// The order is transitive.
pub proof fn lemma_lex_transitive(a: Seq<char>, b: Seq<char>, c: Seq<char>)
    requires
        lex_lt(a, b),
        lex_lt(b, c),
    ensures
        lex_lt(a, c),
    decreases a.len(),
{
    if a.len() > 0 && b.len() > 0 && c.len() > 0 && a[0] == b[0] && b[0] == c[0] {
        lemma_lex_transitive(a.drop_first(), b.drop_first(), c.drop_first());
    }
}

/// The order is asymmetric.
pub proof fn lemma_lex_asymmetric(a: Seq<char>, b: Seq<char>)
    requires
        lex_lt(a, b),
    ensures
        !lex_lt(b, a),
{
    if lex_lt(b, a) {
        lemma_lex_transitive(a, b, a);
        lemma_lex_irreflexive(a);
    }
}

/// Character-wise equality of two strings.
pub fn str_eq(a: &str, b: &str) -> (r: bool)
    ensures
        r == (a@ == b@),
{
    let n = a.unicode_len();
    let m = b.unicode_len();
    if n != m {
        return false;
    }
    let mut i: usize = 0;
    while i < n
        invariant
            n == a@.len(),
            m == b@.len(),
            n == m,
            i <= n,
            forall|k: int| 0 <= k < i ==> a@[k] == b@[k],
        decreases n - i,
    {
        if a.get_char(i) != b.get_char(i) {
            return false;
        }
        i += 1;
    }
    assert(a@ =~= b@);
    true
}

/// Whether `s` begins with `prefix`.
pub fn starts_with(s: &str, prefix: &str) -> (r: bool)
    ensures
        r == is_prefix(prefix@, s@),
{
    let n = s.unicode_len();
    let m = prefix.unicode_len();
    if m > n {
        return false;
    }
    let mut i: usize = 0;
    while i < m
        invariant
            n == s@.len(),
            m == prefix@.len(),
            m <= n,
            i <= m,
            forall|k: int| 0 <= k < i ==> s@[k] == prefix@[k],
        decreases m - i,
    {
        if s.get_char(i) != prefix.get_char(i) {
            assert(s@.subrange(0, m as int)[i as int] != prefix@[i as int]);
            return false;
        }
        i += 1;
    }
    assert(s@.subrange(0, m as int) =~= prefix@);
    true
}

/// Whether `a` comes strictly before `b` in lexicographic order.
pub fn str_lt(a: &str, b: &str) -> (r: bool)
    ensures
        r == lex_lt(a@, b@),
{
    let n = a.unicode_len();
    let m = b.unicode_len();
    let mut i: usize = 0;
    assert(a@.skip(0) =~= a@);
    assert(b@.skip(0) =~= b@);
    while i < n && i < m
        invariant
            n == a@.len(),
            m == b@.len(),
            i <= n,
            i <= m,
            lex_lt(a@, b@) == lex_lt(a@.skip(i as int), b@.skip(i as int)),
        decreases n - i,
    {
        let x = a.get_char(i);
        let y = b.get_char(i);
        assert(a@.skip(i as int)[0] == x);
        assert(b@.skip(i as int)[0] == y);
        if x != y {
            return (x as u32) < (y as u32);
        }
        assert(a@.skip(i as int).drop_first() =~= a@.skip(i + 1));
        assert(b@.skip(i as int).drop_first() =~= b@.skip(i + 1));
        i += 1;
    }
    assert(a@.skip(i as int).len() == n - i);
    assert(b@.skip(i as int).len() == m - i);
    i < m
}


/// Why a decimal integer text was refused; the kinds of `std::num::IntErrorKind`
/// that decimal parsing of a signed type produces.
#[derive(Debug, Clone, Copy, PartialEq, Eq, Structural)]
pub enum IntErrorKind {
    Empty,
    InvalidDigit,
    PosOverflow,
    NegOverflow,
}

/// `c` is one of `0` to `9`.
pub open spec fn is_ascii_digit(c: char) -> bool {
    48 <= (c as int) <= 57
}

/// The value of an ASCII digit.
pub open spec fn digit_value(c: char) -> int {
    (c as int) - 48
}

/// Digits are read left to right; a non-digit is refused where it stands, and
/// the running value leaving `[lo, hi]` is refused where that happens.
pub open spec fn scan_digits(d: Seq<char>, acc: int, negative: bool, lo: int, hi: int) -> Result<
    int,
    IntErrorKind,
>
    decreases d.len(),
{
    if d.len() == 0 {
        Ok(acc)
    } else if !is_ascii_digit(d[0]) {
        Err(IntErrorKind::InvalidDigit)
    } else {
        let next = if negative {
            acc * 10 - digit_value(d[0])
        } else {
            acc * 10 + digit_value(d[0])
        };
        if next < lo {
            Err(IntErrorKind::NegOverflow)
        } else if next > hi {
            Err(IntErrorKind::PosOverflow)
        } else {
            scan_digits(d.drop_first(), next, negative, lo, hi)
        }
    }
}

/// Decimal parsing of a signed integer type with range `[lo, hi]`: an optional
/// `+` or `-`, then at least one digit and nothing else.
pub open spec fn parse_int(s: Seq<char>, lo: int, hi: int) -> Result<int, IntErrorKind> {
    if s.len() == 0 {
        Err(IntErrorKind::Empty)
    } else if s.len() == 1 && (s[0] == '+' || s[0] == '-') {
        Err(IntErrorKind::InvalidDigit)
    } else if s[0] == '-' {
        scan_digits(s.drop_first(), 0, true, lo, hi)
    } else if s[0] == '+' {
        scan_digits(s.drop_first(), 0, false, lo, hi)
    } else {
        scan_digits(s, 0, false, lo, hi)
    }
}

/// A scan that succeeds stays within its bounds.
pub proof fn lemma_scan_in_range(d: Seq<char>, acc: int, negative: bool, lo: int, hi: int)
    requires
        lo <= acc <= hi,
    ensures
        scan_digits(d, acc, negative, lo, hi) matches Ok(v) ==> lo <= v <= hi,
    decreases d.len(),
{
    if d.len() > 0 && is_ascii_digit(d[0]) {
        let next = if negative {
            acc * 10 - digit_value(d[0])
        } else {
            acc * 10 + digit_value(d[0])
        };
        if lo <= next <= hi {
            lemma_scan_in_range(d.drop_first(), next, negative, lo, hi);
        }
    }
}

fn scan_from(s: &str, start: usize, negative: bool, lo: i128, hi: i128) -> (r: Result<
    i128,
    IntErrorKind,
>)
    requires
        start <= s@.len(),
        lo <= 0 <= hi,
    ensures
        match r {
            Ok(v) => scan_digits(s@.skip(start as int), 0, negative, lo as int, hi as int) == Ok::<
                int,
                IntErrorKind,
            >(v as int),
            Err(e) => scan_digits(s@.skip(start as int), 0, negative, lo as int, hi as int) == Err::<
                int,
                IntErrorKind,
            >(e),
        },
{
    let n = s.unicode_len();
    let mut i = start;
    let mut acc: i128 = 0;
    while i < n
        invariant
            n == s@.len(),
            start <= i <= n,
            lo <= acc <= hi,
            negative ==> acc <= 0,
            !negative ==> acc >= 0,
            scan_digits(s@.skip(start as int), 0, negative, lo as int, hi as int) == scan_digits(
                s@.skip(i as int),
                acc as int,
                negative,
                lo as int,
                hi as int,
            ),
        decreases n - i,
    {
        let c = s.get_char(i);
        let ghost rest = s@.skip(i as int);
        assert(rest[0] == c);
        assert(rest.drop_first() =~= s@.skip(i + 1));
        if !((c as u32) >= 48 && (c as u32) <= 57) {
            return Err(IntErrorKind::InvalidDigit);
        }
        let d = ((c as u32) - 48) as i128;
        let overflow = if negative {
            IntErrorKind::NegOverflow
        } else {
            IntErrorKind::PosOverflow
        };
        let m = match acc.checked_mul(10) {
            Some(m) => m,
            None => {
                return Err(overflow);
            },
        };
        let next = if negative {
            match m.checked_sub(d) {
                Some(x) => x,
                None => {
                    return Err(overflow);
                },
            }
        } else {
            match m.checked_add(d) {
                Some(x) => x,
                None => {
                    return Err(overflow);
                },
            }
        };
        if next < lo {
            return Err(IntErrorKind::NegOverflow);
        }
        if next > hi {
            return Err(IntErrorKind::PosOverflow);
        }
        acc = next;
        i += 1;
    }
    assert(s@.skip(i as int).len() == 0);
    assert(scan_digits(s@.skip(i as int), acc as int, negative, lo as int, hi as int) == Ok::<
        int,
        IntErrorKind,
    >(acc as int));
    Ok(acc)
}

/// Decimal parsing into the range `[lo, hi]`, as `str::parse` does for a
/// signed integer type with that range.
pub fn parse_int_in(s: &str, lo: i128, hi: i128) -> (r: Result<i128, IntErrorKind>)
    requires
        lo <= 0 <= hi,
    ensures
        match r {
            Ok(v) => parse_int(s@, lo as int, hi as int) == Ok::<int, IntErrorKind>(v as int),
            Err(e) => parse_int(s@, lo as int, hi as int) == Err::<int, IntErrorKind>(e),
        },
        r matches Ok(v) ==> lo <= v <= hi,
{
    let n = s.unicode_len();
    if n == 0 {
        return Err(IntErrorKind::Empty);
    }
    let c = s.get_char(0);
    if n == 1 && (c == '+' || c == '-') {
        return Err(IntErrorKind::InvalidDigit);
    }
    assert(s@.skip(0) =~= s@);
    let r = if c == '-' {
        scan_from(s, 1, true, lo, hi)
    } else if c == '+' {
        scan_from(s, 1, false, lo, hi)
    } else {
        scan_from(s, 0, false, lo, hi)
    };
    assert(s@.skip(1) =~= s@.drop_first());
    proof {
        lemma_scan_in_range(s@.drop_first(), 0, c == '-', lo as int, hi as int);
        lemma_scan_in_range(s@, 0, false, lo as int, hi as int);
    }
    r
}

/// `str::parse::<i64>`.
pub fn parse_i64(s: &str) -> (r: Result<i64, IntErrorKind>)
    ensures
        match r {
            Ok(v) => parse_int(s@, i64::MIN as int, i64::MAX as int) == Ok::<int, IntErrorKind>(
                v as int,
            ),
            Err(e) => parse_int(s@, i64::MIN as int, i64::MAX as int) == Err::<int, IntErrorKind>(
                e,
            ),
        },
{
    match parse_int_in(s, i64::MIN as i128, i64::MAX as i128) {
        Ok(v) => Ok(v as i64),
        Err(e) => Err(e),
    }
}

/// `str::parse::<i128>`.
pub fn parse_i128(s: &str) -> (r: Result<i128, IntErrorKind>)
    ensures
        match r {
            Ok(v) => parse_int(s@, i128::MIN as int, i128::MAX as int) == Ok::<int, IntErrorKind>(
                v as int,
            ),
            Err(e) => parse_int(s@, i128::MIN as int, i128::MAX as int) == Err::<
                int,
                IntErrorKind,
            >(e),
        },
{
    parse_int_in(s, i128::MIN, i128::MAX)
}

/// The character of a decimal digit.
pub open spec fn digit_char(d: int) -> char {
    (48 + d) as char
}

/// Decimal notation of a natural number, without leading zeros.
pub open spec fn decimal(n: nat) -> Seq<char>
    decreases n,
{
    if n < 10 {
        seq![digit_char(n as int)]
    } else {
        decimal(n / 10) + seq![digit_char((n % 10) as int)]
    }
}

fn digit_text(d: u128) -> (s: &'static str)
    requires
        d < 10,
    ensures
        s@ =~= seq![digit_char(d as int)],
{
    if d == 0 {
        proof { reveal_strlit("0"); }
        "0"
    } else if d == 1 {
        proof { reveal_strlit("1"); }
        "1"
    } else if d == 2 {
        proof { reveal_strlit("2"); }
        "2"
    } else if d == 3 {
        proof { reveal_strlit("3"); }
        "3"
    } else if d == 4 {
        proof { reveal_strlit("4"); }
        "4"
    } else if d == 5 {
        proof { reveal_strlit("5"); }
        "5"
    } else if d == 6 {
        proof { reveal_strlit("6"); }
        "6"
    } else if d == 7 {
        proof { reveal_strlit("7"); }
        "7"
    } else if d == 8 {
        proof { reveal_strlit("8"); }
        "8"
    } else {
        proof { reveal_strlit("9"); }
        "9"
    }
}

/// Decimal notation of `n`, as `format!("{}", n)` writes it.
pub fn decimal_text(n: u128) -> (r: String)
    ensures
        r@ == decimal(n as nat),
    decreases n,
{
    if n < 10 {
        digit_text(n).to_string()
    } else {
        let head = decimal_text(n / 10);
        head.concat(digit_text(n % 10))
    }
}


/// Scanning two pieces of text one after the other is scanning their join.
pub proof fn lemma_scan_concat(
    a: Seq<char>,
    b: Seq<char>,
    acc: int,
    negative: bool,
    lo: int,
    hi: int,
)
    ensures
        scan_digits(a + b, acc, negative, lo, hi) == match scan_digits(a, acc, negative, lo, hi) {
            Ok(v) => scan_digits(b, v, negative, lo, hi),
            Err(e) => Err(e),
        },
    decreases a.len(),
{
    if a.len() == 0 {
        assert(a + b =~= b);
    } else {
        assert((a + b)[0] == a[0]);
        assert((a + b).drop_first() =~= a.drop_first() + b);
        let next = if negative {
            acc * 10 - digit_value(a[0])
        } else {
            acc * 10 + digit_value(a[0])
        };
        lemma_scan_concat(a.drop_first(), b, next, negative, lo, hi);
    }
}

/// The digits of a decimal notation are ASCII digits, and it is not empty.
pub proof fn lemma_decimal_digits(n: nat)
    ensures
        decimal(n).len() >= 1,
        forall|i: int| 0 <= i < decimal(n).len() ==> is_ascii_digit(#[trigger] decimal(n)[i]),
    decreases n,
{
    if n >= 10 {
        lemma_decimal_digits(n / 10);
    }
}

/// Scanning the decimal notation of `n` gives `n` back.
pub proof fn lemma_scan_decimal(n: nat, lo: int, hi: int)
    requires
        lo <= 0,
        n <= hi,
    ensures
        scan_digits(decimal(n), 0, false, lo, hi) == Ok::<int, IntErrorKind>(n as int),
    decreases n,
{
    let d = if n < 10 { n as int } else { (n % 10) as int };
    assert(digit_value(digit_char(d)) == d);
    assert(is_ascii_digit(digit_char(d)));
    if n < 10 {
        let s = decimal(n);
        assert(s[0] == digit_char(d));
        assert(s.drop_first() =~= Seq::<char>::empty());
        assert(scan_digits(s.drop_first(), n as int, false, lo, hi) == Ok::<int, IntErrorKind>(n as int));
        assert(scan_digits(s, 0, false, lo, hi) == scan_digits(s.drop_first(), n as int, false, lo, hi));
    } else {
        lemma_scan_decimal(n / 10, lo, hi);
        lemma_scan_concat(decimal(n / 10), seq![digit_char(d)], 0, false, lo, hi);
        assert(seq![digit_char(d)].drop_first() =~= Seq::<char>::empty());
        assert(decimal(n) == decimal(n / 10) + seq![digit_char(d)]);
        assert((n / 10) as int * 10 + d == n);
        let t = seq![digit_char(d)];
        assert(t[0] == digit_char(d));
        assert(scan_digits(t.drop_first(), n as int, false, lo, hi) == Ok::<int, IntErrorKind>(n as int));
        assert(scan_digits(t, (n / 10) as int, false, lo, hi) == Ok::<int, IntErrorKind>(n as int));
    }
}

/// Reading back the decimal notation of a number in range gives the number:
/// what `decimal_text` writes, `parse_int_in` reads.
pub proof fn lemma_parse_decimal(n: nat, lo: int, hi: int)
    requires
        lo <= 0,
        n <= hi,
    ensures
        parse_int(decimal(n), lo, hi) == Ok::<int, IntErrorKind>(n as int),
{
    lemma_decimal_digits(n);
    lemma_scan_decimal(n, lo, hi);
    assert(is_ascii_digit(decimal(n)[0]));
}

} // verus!
