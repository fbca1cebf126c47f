//! Radix parsing with parse-or-zero semantics and exact decimal rendering
//! of integers and fixed-point values.
//!
//! Every numeric field of a frame is parsed with the parse-or-zero contract:
//! a malformed or out-of-range field yields 0 rather than failing the frame.

use vstd::prelude::*;

verus! {

/// Value of one digit character under `radix`, if it is a valid digit:
/// `0`-`9`, then `a`-`z` or `A`-`Z` for values 10 and up.
pub open spec fn digit_value(c: char, radix: u32) -> Option<int> {
    let v: int = if '0' <= c && c <= '9' {
        (c as u32 - '0' as u32) as int
    } else if 'a' <= c && c <= 'z' {
        (c as u32 - 'a' as u32) as int + 10
    } else if 'A' <= c && c <= 'Z' {
        (c as u32 - 'A' as u32) as int + 10
    } else {
        36
    };
    if v < radix {
        Some(v)
    } else {
        None
    }
}

/// Value of an unsigned digit string under `radix`; `None` when empty or
/// when any character is not a digit of the radix.
pub open spec fn digits_value(s: Seq<char>, radix: u32) -> Option<int>
    decreases s.len(),
{
    if s.len() == 0 {
        None
    } else if s.len() == 1 {
        digit_value(s[0], radix)
    } else {
        match (digits_value(s.drop_last(), radix), digit_value(s.last(), radix)) {
            (Some(hi), Some(lo)) => Some(hi * radix + lo),
            _ => None,
        }
    }
}

/// Value of an integer string with one optional leading `+` or `-`,
/// as `from_str_radix` reads it.
pub open spec fn parse_int(s: Seq<char>, radix: u32) -> Option<int> {
    if s.len() == 0 {
        None
    } else if s[0] == '+' {
        digits_value(s.drop_first(), radix)
    } else if s[0] == '-' {
        match digits_value(s.drop_first(), radix) {
            Some(v) => Some(-v),
            None => None,
        }
    } else {
        digits_value(s, radix)
    }
}

/// Parse-or-zero: the parsed value when it exists and fits `[lo, hi]`,
/// otherwise 0.
pub open spec fn parse_or_zero(s: Seq<char>, radix: u32, lo: int, hi: int) -> int {
    match parse_int(s, radix) {
        Some(v) => if lo <= v <= hi {
            v
        } else {
            0
        },
        None => 0,
    }
}

/// A digit string stays unsigned and nonnegative.
pub proof fn lemma_digits_value_nonneg(s: Seq<char>, radix: u32)
    ensures
        match digits_value(s, radix) {
            Some(v) => v >= 0,
            None => true,
        },
    decreases s.len(),
{
    if s.len() > 1 {
        lemma_digits_value_nonneg(s.drop_last(), radix);
    }
}

/// One invalid character makes the whole digit string invalid.
pub proof fn lemma_digits_invalid(s: Seq<char>, radix: u32, j: int)
    requires
        0 <= j < s.len(),
        digit_value(s[j], radix) is None,
    ensures
        digits_value(s, radix) is None,
    decreases s.len(),
{
    if s.len() > 1 && j < s.len() - 1 {
        lemma_digits_invalid(s.drop_last(), radix, j);
    }
}

/// Value of one digit character, or `None` when it is not one.
pub fn digit_of(c: char, radix: u32) -> (r: Option<u32>)
    requires
        2 <= radix <= 36,
    ensures
        match r {
            Some(d) => digit_value(c, radix) == Some(d as int) && d < radix,
            None => digit_value(c, radix) is None,
        },
{
    proof {
        vstd::utf8::char_is_scalar(c);
    }
    let v: u32 = if '0' <= c && c <= '9' {
        (c as u32) - ('0' as u32)
    } else if 'a' <= c && c <= 'z' {
        (c as u32) - ('a' as u32) + 10
    } else if 'A' <= c && c <= 'Z' {
        (c as u32) - ('A' as u32) + 10
    } else {
        36
    };
    if v < radix {
        Some(v)
    } else {
        None
    }
}

/// Core of the `from_str_radix`-then-`unwrap_or(0)` idiom shared by the
/// public string-to-integer functions: parse `s` under `radix` and return
/// the value when it lies in `[lo, hi]`, else 0.
fn parse_radix_or_zero(s: &str, radix: u32, lo: i64, hi: i64) -> (r: i64)
    requires
        2 <= radix <= 36,
        lo <= 0 <= hi,
    ensures
        r as int == parse_or_zero(s@, radix, lo as int, hi as int),
{
    let len: usize = s.unicode_len();
    if len == 0 {
        return 0;
    }
    let first: char = s.get_char(0);
    let neg: bool = first == '-';
    let start: usize = if first == '-' || first == '+' {
        1
    } else {
        0
    };
    let ghost digits = s@.subrange(start as int, len as int);
    proof {
        if start == 1 {
            assert(digits =~= s@.drop_first());
        } else {
            assert(digits =~= s@);
        }
    }
    if start == len {
        // A lone sign has no digits to read.
        return 0;
    }
    // Accumulate the magnitude negatively so that the most negative value
    // still fits; `over` records that the magnitude left the i64 range.
    let mut acc: i64 = 0;
    let mut over: bool = false;
    let ghost mut gv: int = 0int;
    let mut k: usize = start;
    while k < len
        invariant
            2 <= radix <= 36,
            start < len == s@.len(),
            start <= k <= len,
            first == s@[0],
            neg == (first == '-'),
            (first == '-' || first == '+') ==> start == 1,
            !(first == '-' || first == '+') ==> start == 0,
            digits == s@.subrange(start as int, len as int),
            k > start ==> digits_value(s@.subrange(start as int, k as int), radix) == Some(gv),
            k == start ==> gv == 0,
            gv >= 0,
            !over ==> acc == -gv && acc <= 0,
            over ==> gv > i64::MAX as int + 1,
        decreases len - k,
    {
        let c = s.get_char(k);
        let ghost pre = s@.subrange(start as int, k as int);
        match digit_of(c, radix) {
            None => {
                proof {
                    assert(digits[k - start] == s@[k as int]);
                    lemma_digits_invalid(digits, radix, k - start);
                    if start == 1 {
                        assert(s@.drop_first() =~= digits);
                    } else {
                        assert(s@ =~= digits);
                    }
                }
                return 0;
            },
            Some(d) => {
                proof {
                    let post = s@.subrange(start as int, k as int + 1);
                    assert(post.drop_last() =~= pre);
                    assert(post.last() == s@[k as int]);
                    if k > start {
                        lemma_digits_value_nonneg(pre, radix);
                    }
                }
                if !over {
                    let m = acc.checked_mul(radix as i64);
                    match m {
                        Some(m2) => {
                            match m2.checked_sub(d as i64) {
                                Some(a2) => {
                                    proof {
                                        assert(a2 as int == -(gv * (radix as int) + d))
                                            by (nonlinear_arith)
                                            requires
                                                acc as int == -gv,
                                                m2 as int == (acc as int) * (radix as int),
                                                a2 as int == m2 as int - d,
                                        ;
                                        assert(gv * (radix as int) + d >= 0) by (nonlinear_arith)
                                            requires
                                                gv >= 0,
                                                radix >= 2,
                                                d >= 0,
                                        ;
                                    }
                                    acc = a2;
                                },
                                None => {
                                    proof {
                                        assert(gv * (radix as int) + d > i64::MAX as int + 1)
                                            by (nonlinear_arith)
                                            requires
                                                acc as int == -gv,
                                                m2 as int == (acc as int) * (radix as int),
                                                (m2 as int) - d < i64::MIN as int,
                                                i64::MIN as int == -(i64::MAX as int) - 1,
                                        ;
                                    }
                                    over = true;
                                },
                            }
                        },
                        None => {
                            proof {
                                assert(gv * (radix as int) + d > i64::MAX as int + 1)
                                    by (nonlinear_arith)
                                    requires
                                        acc as int == -gv,
                                        acc <= 0,
                                        gv >= 0,
                                        radix >= 2,
                                        d >= 0,
                                        (acc as int) * (radix as int) < i64::MIN as int || (
                                        acc as int) * (radix as int) > i64::MAX as int,
                                        i64::MIN as int == -(i64::MAX as int) - 1,
                                ;
                            }
                            over = true;
                        },
                    }
                } else {
                    proof {
                        assert(gv * (radix as int) + d > i64::MAX as int + 1) by (nonlinear_arith)
                            requires
                                gv > i64::MAX as int + 1,
                                radix >= 2,
                                d >= 0,
                        ;
                    }
                }
                proof {
                    gv = gv * (radix as int) + d;
                }
            },
        }
        k = k + 1;
    }
    proof {
        assert(s@.subrange(start as int, len as int) == digits);
        lemma_digits_value_nonneg(digits, radix);
        if start == 1 {
            assert(s@.drop_first() =~= digits);
        } else {
            assert(s@ =~= digits);
        }
        assert(digits_value(digits, radix) == Some(gv));
    }
    if over {
        return 0;
    }
    if neg {
        if acc < lo {
            0
        } else {
            acc
        }
    } else {
        if acc >= -hi {
            -acc
        } else {
            0
        }
    }
}

/// `i32::from_str_radix(s, radix).unwrap_or(0)`: string to i32, 0 when the
/// string is malformed or out of range.
pub fn str_to_int(str_integer: &str, radix: u32) -> (r: i32)
    requires
        2 <= radix <= 36,
    ensures
        r as int == parse_or_zero(str_integer@, radix, i32::MIN as int, i32::MAX as int),
{
    parse_radix_or_zero(str_integer, radix, i32::MIN as i64, i32::MAX as i64) as i32
}

/// `u32::from_str_radix(s, radix).unwrap_or(0)`: string to u32, 0 when the
/// string is malformed, negative or out of range.
pub fn ustr_to_int(str_integer: &str, radix: u32) -> (r: u32)
    requires
        2 <= radix <= 36,
    ensures
        r as int == parse_or_zero(str_integer@, radix, 0, u32::MAX as int),
{
    parse_radix_or_zero(str_integer, radix, 0i64, u32::MAX as i64) as u32
}

/// String to i64 after removing every space, 0 when malformed or out of
/// range.
pub fn str_to_int64(str_integer: &str, radix: u32) -> (r: i64)
    requires
        2 <= radix <= 36,
    ensures
        r as int == parse_or_zero(
            str_integer@.filter(|c: char| c != ' '),
            radix,
            i64::MIN as int,
            i64::MAX as int,
        ),
{
    let len: usize = str_integer.unicode_len();
    let mut compact = String::new();
    let mut i: usize = 0;
    proof {
        assert(str_integer@.take(0).filter(|c: char| c != ' ') =~= compact@);
    }
    while i < len
        invariant
            i <= len,
            len == str_integer@.len(),
            compact@ == str_integer@.take(i as int).filter(|c: char| c != ' '),
        decreases len - i,
    {
        let ghost pre = str_integer@.take(i as int);
        proof {
            assert(str_integer@.take(i as int + 1).drop_last() =~= pre);
            reveal_with_fuel(Seq::filter, 2);
        }
        let c = str_integer.get_char(i);
        if c != ' ' {
            let piece = str_integer.substring_char(i, i + 1);
            proof {
                assert(piece@ =~= seq![str_integer@[i as int]]);
            }
            compact.append(piece);
        }
        proof {
            assert(str_integer@.take(i as int + 1).filter(|c: char| c != ' ') == if str_integer@[i
                as int] != ' ' {
                pre.filter(|c: char| c != ' ').push(str_integer@[i as int])
            } else {
                pre.filter(|c: char| c != ' ')
            });
            if str_integer@[i as int] != ' ' {
                assert(compact@ =~= pre.filter(|c: char| c != ' ').push(str_integer@[i as int]));
            }
        }
        i = i + 1;
    }
    proof {
        assert(str_integer@.take(len as int) =~= str_integer@);
    }
    parse_radix_or_zero(compact.as_str(), radix, i64::MIN, i64::MAX)
}

/// Strict unsigned read of one token under `radix`, as `from_str_radix`
/// for u32: `None` when malformed, signed or out of range.
pub open spec fn strict_u32(t: Seq<char>, radix: u32) -> Option<int> {
    if t.len() > 0 && t[0] == '-' {
        None
    } else {
        match parse_int(t, radix) {
            Some(v) => if 0 <= v <= u32::MAX as int {
                Some(v)
            } else {
                None
            },
            None => None,
        }
    }
}

/// Strict unsigned read of one token, `None` when malformed, signed or
/// out of the u32 range.
pub fn parse_u32_strict(t: &str, radix: u32) -> (r: Option<u32>)
    requires
        2 <= radix <= 36,
    ensures
        match r {
            Some(v) => strict_u32(t@, radix) == Some(v as int),
            None => strict_u32(t@, radix) is None,
        },
{
    let len: usize = t.unicode_len();
    if len == 0 {
        return None;
    }
    let first: char = t.get_char(0);
    if first == '-' {
        return None;
    }
    let start: usize = if first == '+' {
        1
    } else {
        0
    };
    let ghost digits = t@.subrange(start as int, len as int);
    proof {
        if start == 1 {
            assert(digits =~= t@.drop_first());
        } else {
            assert(digits =~= t@);
        }
    }
    if start == len {
        return None;
    }
    let mut acc: u64 = 0;
    let mut over: bool = false;
    let ghost mut gv: int = 0int;
    let mut k: usize = start;
    while k < len
        invariant
            2 <= radix <= 36,
            start < len == t@.len(),
            start <= k <= len,
            first == t@[0],
            first != '-',
            (first == '+') ==> start == 1,
            (first != '+') ==> start == 0,
            digits == t@.subrange(start as int, len as int),
            k > start ==> digits_value(t@.subrange(start as int, k as int), radix) == Some(gv),
            k == start ==> gv == 0,
            gv >= 0,
            !over ==> acc == gv && acc <= u32::MAX,
            over ==> gv > u32::MAX as int,
        decreases len - k,
    {
        let c = t.get_char(k);
        let ghost pre = t@.subrange(start as int, k as int);
        match digit_of(c, radix) {
            None => {
                proof {
                    assert(digits[k - start] == t@[k as int]);
                    lemma_digits_invalid(digits, radix, k - start);
                    if start == 1 {
                        assert(t@.drop_first() =~= digits);
                    } else {
                        assert(t@ =~= digits);
                    }
                }
                return None;
            },
            Some(d) => {
                proof {
                    let post = t@.subrange(start as int, k as int + 1);
                    assert(post.drop_last() =~= pre);
                    assert(post.last() == t@[k as int]);
                    if k > start {
                        lemma_digits_value_nonneg(pre, radix);
                    }
                }
                if !over {
                    proof {
                        assert((acc as int) * (radix as int) + d <= 0xFFFF_FFFFu64 * 36 + 36)
                            by (nonlinear_arith)
                            requires
                                0 <= acc <= u32::MAX as int,
                                2 <= radix <= 36,
                                0 <= d < radix,
                        ;
                    }
                    let next = acc * (radix as u64) + (d as u64);
                    if next > 0xFFFF_FFFF {
                        over = true;
                    } else {
                        acc = next;
                    }
                } else {
                    proof {
                        assert(gv * (radix as int) + d > u32::MAX as int) by (nonlinear_arith)
                            requires
                                gv > u32::MAX as int,
                                radix >= 2,
                                d >= 0,
                        ;
                    }
                }
                proof {
                    gv = gv * (radix as int) + d;
                }
            },
        }
        k = k + 1;
    }
    proof {
        lemma_digits_value_nonneg(digits, radix);
        if start == 1 {
            assert(t@.drop_first() =~= digits);
        } else {
            assert(t@ =~= digits);
        }
    }
    if over {
        None
    } else {
        Some(acc as u32)
    }
}

/// Decimal digit character of a value below ten.
pub open spec fn dec_digit(d: int) -> char {
    if d == 0 {
        '0'
    } else if d == 1 {
        '1'
    } else if d == 2 {
        '2'
    } else if d == 3 {
        '3'
    } else if d == 4 {
        '4'
    } else if d == 5 {
        '5'
    } else if d == 6 {
        '6'
    } else if d == 7 {
        '7'
    } else if d == 8 {
        '8'
    } else {
        '9'
    }
}

/// Decimal rendering of a natural number, without sign or padding.
pub open spec fn dec_str_nat(n: nat) -> Seq<char>
    decreases n,
{
    if n < 10 {
        seq![dec_digit(n as int)]
    } else {
        dec_str_nat(n / 10).push(dec_digit((n % 10) as int))
    }
}

/// Decimal rendering of an integer, `-` first when negative.
pub open spec fn dec_str_int(v: int) -> Seq<char> {
    if v < 0 {
        seq!['-'] + dec_str_nat((-v) as nat)
    } else {
        dec_str_nat(v as nat)
    }
}

/// One decimal digit as a string slice.
fn digit_str(d: u64) -> (r: &'static str)
    requires
        d < 10,
    ensures
        r@ == seq![dec_digit(d as int)],
{
    if d == 0 {
        proof {
            reveal_strlit("0");
            assert("0"@ =~= seq!['0']);
        }
        "0"
    } else if d == 1 {
        proof {
            reveal_strlit("1");
            assert("1"@ =~= seq!['1']);
        }
        "1"
    } else if d == 2 {
        proof {
            reveal_strlit("2");
            assert("2"@ =~= seq!['2']);
        }
        "2"
    } else if d == 3 {
        proof {
            reveal_strlit("3");
            assert("3"@ =~= seq!['3']);
        }
        "3"
    } else if d == 4 {
        proof {
            reveal_strlit("4");
            assert("4"@ =~= seq!['4']);
        }
        "4"
    } else if d == 5 {
        proof {
            reveal_strlit("5");
            assert("5"@ =~= seq!['5']);
        }
        "5"
    } else if d == 6 {
        proof {
            reveal_strlit("6");
            assert("6"@ =~= seq!['6']);
        }
        "6"
    } else if d == 7 {
        proof {
            reveal_strlit("7");
            assert("7"@ =~= seq!['7']);
        }
        "7"
    } else if d == 8 {
        proof {
            reveal_strlit("8");
            assert("8"@ =~= seq!['8']);
        }
        "8"
    } else {
        proof {
            reveal_strlit("9");
            assert("9"@ =~= seq!['9']);
        }
        "9"
    }
}

/// Decimal rendering of a u64.
pub fn u64_to_dec(n: u64) -> (r: String)
    ensures
        r@ == dec_str_nat(n as nat),
    decreases n,
{
    if n < 10 {
        let mut s = String::new();
        s.append(digit_str(n));
        proof {
            assert(s@ =~= seq![dec_digit(n as int)]);
        }
        s
    } else {
        let mut s = u64_to_dec(n / 10);
        s.append(digit_str(n % 10));
        proof {
            assert(s@ =~= dec_str_nat((n / 10) as nat).push(dec_digit((n % 10) as int)));
        }
        s
    }
}

/// Decimal rendering of an i64, `-` first when negative.
pub fn i64_to_dec(v: i64) -> (r: String)
    ensures
        r@ == dec_str_int(v as int),
{
    if v >= 0 {
        u64_to_dec(v as u64)
    } else {
        let m: u64 = if v == i64::MIN {
            9223372036854775808u64
        } else {
            (-v) as u64
        };
        let mut s = String::new();
        proof {
            reveal_strlit("-");
            assert("-"@ =~= seq!['-']);
        }
        s.append("-");
        let d = u64_to_dec(m);
        s.append(d.as_str());
        proof {
            assert(s@ =~= seq!['-'] + dec_str_nat((-(v as int)) as nat));
        }
        s
    }
}

/// Decimal rendering of an i32.
pub fn i32_to_dec(v: i32) -> (r: String)
    ensures
        r@ == dec_str_int(v as int),
{
    i64_to_dec(v as i64)
}

/// Decimal rendering of a u32.
pub fn u32_to_dec(v: u32) -> (r: String)
    ensures
        r@ == dec_str_nat(v as nat),
{
    u64_to_dec(v as u64)
}

/// Ten to the `w`.
pub open spec fn pow10(w: nat) -> nat
    decreases w,
{
    if w == 0 {
        1
    } else {
        10 * pow10((w - 1) as nat)
    }
}

/// Decimal rendering of `n` zero-padded on the left to exactly `w` digits.
pub open spec fn pad_dec(n: nat, w: nat) -> Seq<char>
    decreases w,
{
    if w <= 1 {
        seq![dec_digit((n % 10) as int)]
    } else {
        pad_dec(n / 10, (w - 1) as nat).push(dec_digit((n % 10) as int))
    }
}

/// Fraction digits with their trailing zeros removed.
pub open spec fn strip_zeros(s: Seq<char>) -> Seq<char>
    decreases s.len(),
{
    if s.len() == 0 {
        s
    } else if s.last() == '0' {
        strip_zeros(s.drop_last())
    } else {
        s
    }
}

/// Decimal rendering of the rational `m / pow10(w)`: the integer part, and
/// when the remainder is not zero a point and the fraction digits with
/// trailing zeros removed.  This is the exact value written out, the way
/// the decoded fixed-point fields are displayed.
pub open spec fn fixed_nat_str(m: nat, w: nat) -> Seq<char> {
    let q = m / pow10(w);
    let r = m % pow10(w);
    if r == 0 {
        dec_str_nat(q)
    } else {
        dec_str_nat(q) + seq!['.'] + strip_zeros(pad_dec(r, w))
    }
}

/// Decimal rendering of the rational `n / pow10(w)` with sign.
pub open spec fn fixed_dec_str(n: int, w: nat) -> Seq<char> {
    if n < 0 {
        seq!['-'] + fixed_nat_str((-n) as nat, w)
    } else {
        fixed_nat_str(n as nat, w)
    }
}

/// Ten to the `w` as an i64, for small `w`.
pub fn pow10_i64(w: u32) -> (r: i64)
    requires
        w <= 9,
    ensures
        r as int == pow10(w as nat),
        r >= 1,
    decreases w,
{
    if w == 0 {
        1
    } else {
        let p = pow10_i64(w - 1);
        proof {
            assert(pow10(w as nat) == 10 * pow10((w - 1) as nat));
            reveal_with_fuel(pow10, 11);
            assert(pow10(9nat) == 1000000000);
            lemma_pow10_increases((w - 1) as nat, 9nat);
        }
        10 * p
    }
}

pub proof fn lemma_pow10_increases(a: nat, b: nat)
    requires
        a <= b,
    ensures
        pow10(a) <= pow10(b),
    decreases b,
{
    if a < b {
        lemma_pow10_increases(a, (b - 1) as nat);
        assert(pow10(b) == 10 * pow10((b - 1) as nat));
    }
}

/// Padded decimal rendering of `n` in exactly `w` digits.
fn pad_dec_exec(n: u64, w: u32) -> (r: String)
    requires
        1 <= w <= 9,
    ensures
        r@ == pad_dec(n as nat, w as nat),
    decreases w,
{
    if w == 1 {
        let mut s = String::new();
        s.append(digit_str(n % 10));
        proof {
            assert(s@ =~= seq![dec_digit((n % 10) as int)]);
        }
        s
    } else {
        let mut s = pad_dec_exec(n / 10, w - 1);
        s.append(digit_str(n % 10));
        proof {
            assert(s@ =~= pad_dec((n / 10) as nat, (w - 1) as nat).push(
                dec_digit((n % 10) as int),
            ));
        }
        s
    }
}

/// Exact decimal rendering of `n / pow10(w)`: the value of a fixed-point
/// field with `w` fraction digits, trailing fraction zeros removed, no
/// point when the fraction is zero.
pub fn fixed_to_dec(n: i64, w: u32) -> (r: String)
    requires
        1 <= w <= 9,
    ensures
        r@ == fixed_dec_str(n as int, w as nat),
{
    let p: i64 = pow10_i64(w);
    let m: u64 = if n >= 0 {
        n as u64
    } else if n == i64::MIN {
        9223372036854775808u64
    } else {
        (-n) as u64
    };
    let q: u64 = m / (p as u64);
    let rem: u64 = m % (p as u64);
    let mut out = String::new();
    if n < 0 {
        proof {
            reveal_strlit("-");
            assert("-"@ =~= seq!['-']);
        }
        out.append("-");
    }
    let ipart = u64_to_dec(q);
    out.append(ipart.as_str());
    if rem != 0 {
        proof {
            reveal_strlit(".");
            assert("."@ =~= seq!['.']);
        }
        out.append(".");
        // Remove trailing zeros arithmetically: each factor of ten in the
        // remainder is one trailing zero of the padded fraction.
        let mut rr: u64 = rem;
        let mut ww: u32 = w;
        proof {
            assert(rem < pow10(w as nat));
        }
        while rr % 10 == 0 && ww > 1
            invariant
                1 <= ww <= w <= 9,
                rr > 0,
                rr < pow10(ww as nat),
                strip_zeros(pad_dec(rem as nat, w as nat)) == strip_zeros(
                    pad_dec(rr as nat, ww as nat),
                ),
            decreases ww,
        {
            proof {
                assert(pad_dec(rr as nat, ww as nat) == pad_dec(
                    (rr / 10) as nat,
                    (ww - 1) as nat,
                ).push(dec_digit((rr % 10) as int)));
                assert(pad_dec(rr as nat, ww as nat).drop_last() =~= pad_dec(
                    (rr / 10) as nat,
                    (ww - 1) as nat,
                ));
                assert(pow10(ww as nat) == 10 * pow10((ww - 1) as nat));
            }
            rr = rr / 10;
            ww = ww - 1;
        }
        proof {
            if rr % 10 == 0 {
                assert(ww == 1);
                assert(rr < pow10(1nat));
                reveal_with_fuel(pow10, 2);
                assert(pow10(1nat) == 10);
                assert(rr == 0);
                assert(false);
            }
            assert(pad_dec(rr as nat, ww as nat).last() == dec_digit((rr % 10) as int));
            assert(dec_digit((rr % 10) as int) != '0');
            assert(strip_zeros(pad_dec(rr as nat, ww as nat)) == pad_dec(rr as nat, ww as nat));
        }
        let frac = pad_dec_exec(rr, ww);
        out.append(frac.as_str());
        proof {
            if n >= 0 {
                assert(out@ =~= dec_str_nat(q as nat) + seq!['.'] + strip_zeros(
                    pad_dec(rem as nat, w as nat),
                ));
            } else {
                assert(out@ =~= seq!['-'] + (dec_str_nat(q as nat) + seq!['.'] + strip_zeros(
                    pad_dec(rem as nat, w as nat),
                )));
            }
        }
    } else {
        proof {
            if n >= 0 {
                assert(out@ =~= dec_str_nat(q as nat));
            } else {
                assert(out@ =~= seq!['-'] + dec_str_nat(q as nat));
            }
        }
    }
    out
}

/// The digits of a decimal number, after any single leading sign.
pub open spec fn decimal_body(s: Seq<char>) -> Seq<char> {
    if s.len() > 0 && (s[0] == '-' || s[0] == '+') {
        s.drop_first()
    } else {
        s
    }
}

/// Shape of a plain decimal number: optional sign, then digits with at most
/// one point and at least one digit.  This is the shape the store accepts
/// for a numeric column.
pub open spec fn is_decimal_num(s: Seq<char>) -> bool {
    &&& decimal_body(s).len() > 0
    &&& exists|d: int|
        0 <= d < decimal_body(s).len() && '0' <= #[trigger] decimal_body(s)[d] && decimal_body(
            s,
        )[d] <= '9'
    &&& forall|j: int|
        0 <= j < decimal_body(s).len() ==> ('0' <= #[trigger] decimal_body(s)[j] && decimal_body(
            s,
        )[j] <= '9') || decimal_body(s)[j] == '.'
    &&& forall|j: int, k: int|
        0 <= j < k < decimal_body(s).len() && #[trigger] decimal_body(s)[j] == '.'
            ==> #[trigger] decimal_body(s)[k] != '.'
}

/// Whether `s` has the shape of a plain decimal number.
pub fn is_decimal_num_exec(s: &str) -> (r: bool)
    ensures
        r == is_decimal_num(s@),
{
    let len: usize = s.unicode_len();
    let start: usize = if len > 0 && (s.get_char(0) == '-' || s.get_char(0) == '+') {
        1
    } else {
        0
    };
    let ghost body = decimal_body(s@);
    proof {
        assert(body =~= s@.subrange(start as int, len as int));
    }
    if start == len {
        return false;
    }
    let mut saw_digit: bool = false;
    let mut saw_point: bool = false;
    let mut i: usize = start;
    while i < len
        invariant
            start <= i <= len,
            len == s@.len(),
            start < len,
            body == decimal_body(s@),
            body == s@.subrange(start as int, len as int),
            saw_digit == exists|d: int|
                0 <= d < i - start && '0' <= #[trigger] body[d] && body[d] <= '9',
            saw_point == exists|d: int| 0 <= d < i - start && #[trigger] body[d] == '.',
            forall|j: int|
                0 <= j < i - start ==> ('0' <= #[trigger] body[j] && body[j] <= '9') || body[j]
                    == '.',
            forall|j: int, k: int|
                0 <= j < k < i - start && #[trigger] body[j] == '.' ==> #[trigger] body[k] != '.',
        decreases len - i,
    {
        let c = s.get_char(i);
        proof {
            assert(body.len() == len - start);
            assert(body[i - start] == s@[i as int]);
        }
        if '0' <= c && c <= '9' {
            saw_digit = true;
        } else if c == '.' {
            if saw_point {
                proof {
                    let d = choose|d: int| 0 <= d < i - start && #[trigger] body[d] == '.';
                    assert(decimal_body(s@)[d] == '.' && decimal_body(s@)[i - start] == '.');
                    if is_decimal_num(s@) {
                        assert(decimal_body(s@)[i - start] != '.');
                    }
                }
                return false;
            }
            saw_point = true;
        } else {
            proof {
                if is_decimal_num(s@) {
                    assert(('0' <= decimal_body(s@)[i - start] && decimal_body(s@)[i - start]
                        <= '9') || decimal_body(s@)[i - start] == '.');
                }
            }
            return false;
        }
        i = i + 1;
    }
    proof {
        assert(body.len() == len - start);
        if saw_digit {
            assert(is_decimal_num(s@));
        } else {
            if is_decimal_num(s@) {
                let d = choose|d: int|
                    0 <= d < body.len() && '0' <= #[trigger] body[d] && body[d] <= '9';
                assert('0' <= body[d] && body[d] <= '9');
            }
        }
    }
    saw_digit
}

} // verus!
