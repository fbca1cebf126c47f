//! The variable codec: stateless decoding of a format tag plus a slice of
//! hexadecimal byte tokens into the string representation that is stored
//! for the variable.
//!
//! Fixed-point formats combine a base-10 or base-16 integer part with a
//! fraction over 100 or 10000 and render the exact rational; the
//! geo-coordinate formats read each token as a character code point.  All
//! plain numeric fields parse-or-zero; a structurally broken geo frame or
//! ASCII field is an error instead.

use vstd::prelude::*;

use crate::nums::{
    dec_str_int, dec_str_nat, fixed_dec_str, parse_or_zero, pow10, str_to_int, u32_to_dec,
    ustr_to_int, fixed_to_dec, pow10_i64,
};
use crate::strutil::{join_range, join_with, split_by, split_str, str_eq};
use vstd::string::StringSliceAdditionalSpecFns;

verus! {

/// Why a field could not be decoded.
#[derive(Clone, Copy, PartialEq, Eq, Structural, Debug)]
pub enum DecodeError {
    /// Too few tokens for the format.
    BadLength,
    /// A token or character is not valid hexadecimal.
    BadHex,
    /// The decoded bytes are not valid text.
    BadUtf8,
    /// A token is not a valid character code point.
    BadCodePoint,
}

/// A device variable: a typed slot whose raw bytes are decoded by format.
pub struct Var {
    pub id: i32,
    pub size: i32,
    pub format: String,
    pub name: String,
    pub base_var_id: i32,
    pub value: String,
    pub code: Option<String>,
}

/// Signed base-10 or base-16 value of a token string, clamped to i32 with
/// parse-or-zero.
pub open spec fn tok_i32(s: Seq<char>, radix: u32) -> int {
    parse_or_zero(s, radix, i32::MIN as int, i32::MAX as int)
}

/// Fixed-point numerator: integer part scaled, plus the fraction part.
pub open spec fn fixed_value(ipart: Seq<char>, dpart: Seq<char>, radix: u32, w: nat) -> int {
    tok_i32(ipart, radix) * pow10(w) + tok_i32(dpart, radix)
}

/// `dec`: all tokens joined, read as one unsigned base-16 integer,
/// rendered in base 10.
pub open spec fn dec_decoded(ts: Seq<Seq<char>>) -> Seq<char> {
    dec_str_nat(parse_or_zero(join_with(ts, Seq::empty()), 16, 0, u32::MAX as int) as nat)
}

/// `bcd`: each token read as base-16 independently, rendered in base 10,
/// joined with single spaces.
pub open spec fn bcd_decoded(ts: Seq<Seq<char>>) -> Seq<char> {
    join_with(ts.map_values(|t: Seq<char>| dec_str_int(tok_i32(t, 16))), seq![' '])
}

/// `hex`: the tokens joined verbatim with single spaces.
pub open spec fn hex_decoded(ts: Seq<Seq<char>>) -> Seq<char> {
    join_with(ts, seq![' '])
}

/// `dec2b`: all tokens joined, read as base-16, divided by 100 exactly.
pub open spec fn dec2b_decoded(ts: Seq<Seq<char>>) -> Seq<char> {
    fixed_dec_str(tok_i32(join_with(ts, Seq::empty()), 16), 2)
}

/// `b31`: three integer tokens and the rest fraction, base 10, over 100.
pub open spec fn b31_decoded(ts: Seq<Seq<char>>) -> Seq<char> {
    fixed_dec_str(
        fixed_value(
            join_with(ts.subrange(0, 3), Seq::empty()),
            join_with(ts.skip(3), Seq::empty()),
            10,
            2,
        ),
        2,
    )
}

/// `b22`: two integer tokens and two fraction tokens, base 10, over 10000.
pub open spec fn b22_decoded(ts: Seq<Seq<char>>) -> Seq<char> {
    fixed_dec_str(
        fixed_value(
            join_with(ts.subrange(0, 2), Seq::empty()),
            join_with(ts.subrange(2, 4), Seq::empty()),
            10,
            4,
        ),
        4,
    )
}

/// `b11`: one integer token and one fraction token, base 10, over 100.
pub open spec fn b11_decoded(ts: Seq<Seq<char>>) -> Seq<char> {
    fixed_dec_str(fixed_value(ts[0], ts[1], 10, 2), 2)
}

/// `jf2`: like `b11` with both tokens read as base 16.
pub open spec fn jf2_decoded(ts: Seq<Seq<char>>) -> Seq<char> {
    fixed_dec_str(fixed_value(ts[0], ts[1], 16, 2), 2)
}

/// `jf4`: two integer tokens and the rest fraction, base 16, over 100.
pub open spec fn jf4_decoded(ts: Seq<Seq<char>>) -> Seq<char> {
    fixed_dec_str(
        fixed_value(
            join_with(ts.subrange(0, 2), Seq::empty()),
            join_with(ts.skip(2), Seq::empty()),
            16,
            2,
        ),
        2,
    )
}

} // verus!

verus! {

// ---- geo-coordinate decoding over character code points ----

/// Strict unsigned base-16 read of one token, as `from_str_radix` for u32:
/// `None` when malformed, signed or out of range.
pub open spec fn strict_hex_u32(t: Seq<char>) -> Option<int> {
    crate::nums::strict_u32(t, 16)
}

/// Whether a code point is a Unicode scalar, so that a character exists
/// for it.
pub open spec fn is_scalar_cp(v: int) -> bool {
    (0 <= v < 0xD800) || (0xDFFF < v <= 0x10FFFF)
}

/// Digit-string value of a group of code points: `None` when empty or when
/// any code point is not an ASCII digit.
pub open spec fn cp_digits(g: Seq<u32>) -> Option<int>
    decreases g.len(),
{
    if g.len() == 0 {
        None
    } else if g.len() == 1 {
        if 48 <= g[0] <= 57 {
            Some(g[0] - 48)
        } else {
            None
        }
    } else {
        match (cp_digits(g.drop_last()), if 48 <= g.last() <= 57 {
            Some((g.last() - 48) as int)
        } else {
            None
        }) {
            (Some(hi), Some(lo)) => Some(hi * 10 + lo),
            _ => None,
        }
    }
}

/// Group value with an optional leading `+` (code point 43) and
/// parse-or-zero semantics, as `str::parse::<u32>` reads it.
pub open spec fn cp_group_value(g: Seq<u32>) -> int {
    let digits = if g.len() > 0 && g[0] == 43 {
        g.drop_first()
    } else {
        g
    };
    match cp_digits(digits) {
        Some(v) => if v <= u32::MAX as int {
            v
        } else {
            0
        },
        None => 0,
    }
}

/// Degrees combined with minutes: `g1 + (g2 + g3 / 10000) / 60` in integer
/// arithmetic, negated when the hemisphere code point is `W` or `S`.
pub open spec fn geo_value(g1: int, g2: int, g3: int, hemi: u32) -> int {
    let m = g1 + (g2 + g3 / 10000) / 60;
    if hemi == 87 || hemi == 83 {
        -m
    } else {
        m
    }
}

/// Result of a geo decode once every token has been read as a code point:
/// `cps` are the code points of the tokens in order.
pub open spec fn geo_decoded(cps: Seq<u32>, d1: int, d2: int, d3: int, hlen: int) -> Seq<char> {
    dec_str_int(
        geo_value(
            cp_group_value(cps.subrange(0, d1)),
            cp_group_value(cps.subrange(d1, d2)),
            cp_group_value(cps.subrange(d2, d3)),
            cps[hlen],
        ),
    )
}

/// Token-by-token strict hex read and scalar check, shared by `longitude`
/// and `latitude`: the code points when every token converts.
pub open spec fn tokens_to_cps(ts: Seq<Seq<char>>) -> Result<Seq<u32>, DecodeError> {
    if forall|i: int| 0 <= i < ts.len() ==> #[trigger] strict_hex_u32(ts[i]) is Some {
        if forall|i: int|
            0 <= i < ts.len() ==> is_scalar_cp(#[trigger] strict_hex_u32(ts[i]).unwrap()) {
            Ok(Seq::new(ts.len(), |i: int| strict_hex_u32(ts[i]).unwrap() as u32))
        } else {
            Err(DecodeError::BadCodePoint)
        }
    } else {
        Err(DecodeError::BadHex)
    }
}

/// `longitude`: ten code points, split 3/2/4/1.
pub open spec fn longitude_decoded(ts: Seq<Seq<char>>) -> Result<Seq<char>, DecodeError> {
    match tokens_to_cps(ts) {
        Ok(cps) => if cps.len() >= 10 {
            Ok(geo_decoded(cps, 3, 5, 9, 9))
        } else {
            Err(DecodeError::BadLength)
        },
        Err(e) => Err(e),
    }
}

/// `latitude`: nine code points, split 2/2/4/1.
pub open spec fn latitude_decoded(ts: Seq<Seq<char>>) -> Result<Seq<char>, DecodeError> {
    match tokens_to_cps(ts) {
        Ok(cps) => if cps.len() >= 9 {
            Ok(geo_decoded(cps, 2, 4, 8, 8))
        } else {
            Err(DecodeError::BadLength)
        },
        Err(e) => Err(e),
    }
}

} // verus!

verus! {

// ---- exec decoding ----

/// An empty separator.
fn empty_sep() -> (r: &'static str)
    ensures
        r@ == Seq::<char>::empty(),
{
    proof {
        reveal_strlit("");
        assert(""@ =~= Seq::<char>::empty());
    }
    ""
}

/// A single-space separator.
fn space_sep() -> (r: &'static str)
    ensures
        r@ == seq![' '],
{
    proof {
        reveal_strlit(" ");
        assert(" "@ =~= seq![' ']);
    }
    " "
}

/// Decode decimal values: tokens joined, one base-16 unsigned integer.
pub fn decode_dec(raw_data: &Vec<&str>) -> (r: String)
    ensures
        r@ == dec_decoded(raw_data.deep_view()),
{
    let joined = join_range(raw_data, 0, raw_data.len(), empty_sep());
    proof {
        assert(raw_data.deep_view().subrange(0, raw_data.deep_view().len() as int) =~= raw_data
            .deep_view());
    }
    let value = ustr_to_int(joined.as_str(), 16);
    u32_to_dec(value)
}

/// Decode each token independently as base-16 and join with spaces.
pub fn decode_bcd(raw_data: &Vec<&str>) -> (r: String)
    ensures
        r@ == bcd_decoded(raw_data.deep_view()),
{
    let ghost mapped = raw_data.deep_view().map_values(|t: Seq<char>| dec_str_int(tok_i32(t, 16)));
    let mut out = String::new();
    if raw_data.len() == 0 {
        proof {
            assert(out@ =~= join_with(mapped, seq![' ']));
        }
        return out;
    }
    let first = crate::nums::i32_to_dec(str_to_int(raw_data[0], 16));
    out.append(first.as_str());
    proof {
        assert(mapped.take(1) =~= seq![mapped[0]]);
        assert(out@ =~= join_with(mapped.take(1), seq![' ']));
    }
    let mut k: usize = 1;
    while k < raw_data.len()
        invariant
            1 <= k <= raw_data.len(),
            mapped == raw_data.deep_view().map_values(|t: Seq<char>| dec_str_int(tok_i32(t, 16))),
            mapped.len() == raw_data.len(),
            out@ == join_with(mapped.take(k as int), seq![' ']),
        decreases raw_data.len() - k,
    {
        out.append(space_sep());
        let piece = crate::nums::i32_to_dec(str_to_int(raw_data[k], 16));
        out.append(piece.as_str());
        proof {
            crate::strutil::lemma_join_take_step(mapped, seq![' '], k as int);
            assert(mapped[k as int] == dec_str_int(tok_i32(raw_data.deep_view()[k as int], 16)));
        }
        k = k + 1;
    }
    proof {
        assert(mapped.take(raw_data.len() as int) =~= mapped);
    }
    out
}

/// Tokens joined verbatim with spaces.
pub fn decode_hex(raw_data: &Vec<&str>) -> (r: String)
    ensures
        r@ == hex_decoded(raw_data.deep_view()),
{
    let r = join_range(raw_data, 0, raw_data.len(), space_sep());
    proof {
        assert(raw_data.deep_view().subrange(0, raw_data.deep_view().len() as int) =~= raw_data
            .deep_view());
    }
    r
}

/// Shared fixed-point path: integer tokens `[i_from, i_to)`, fraction
/// tokens `[d_from, d_to)`, one radix, `w` fraction digits.
fn decode_fixed(
    raw_data: &Vec<&str>,
    i_from: usize,
    i_to: usize,
    d_from: usize,
    d_to: usize,
    radix: u32,
    w: u32,
) -> (r: String)
    requires
        i_from <= i_to <= raw_data.len(),
        d_from <= d_to <= raw_data.len(),
        radix == 10 || radix == 16,
        1 <= w <= 4,
    ensures
        r@ == fixed_dec_str(
            fixed_value(
                join_with(raw_data.deep_view().subrange(i_from as int, i_to as int), Seq::empty()),
                join_with(raw_data.deep_view().subrange(d_from as int, d_to as int), Seq::empty()),
                radix,
                w as nat,
            ),
            w as nat,
        ),
{
    let istr = join_range(raw_data, i_from, i_to, empty_sep());
    let dstr = join_range(raw_data, d_from, d_to, empty_sep());
    let ipart = str_to_int(istr.as_str(), radix);
    let dpart = str_to_int(dstr.as_str(), radix);
    let scale: i64 = pow10_i64(w);
    proof {
        crate::nums::lemma_pow10_increases(w as nat, 4nat);
        reveal_with_fuel(pow10, 5);
        assert(pow10(4nat) == 10000);
        assert(-21474836480000 <= (ipart as int) * (scale as int) <= 21474836480000)
            by (nonlinear_arith)
            requires
                -2147483648 <= ipart <= 2147483647,
                1 <= scale <= 10000,
        ;
    }
    let n: i64 = (ipart as i64) * scale + (dpart as i64);
    fixed_to_dec(n, w)
}

} // verus!

verus! {

// ---- asc: hexadecimal text to a string, NUL characters removed ----

#[verifier::external_type_specification]
#[verifier::external_body]
pub struct ExFromHexError(hex::FromHexError);

/// Whether a byte is an ASCII hexadecimal digit.
pub open spec fn is_hex_digit_u8(b: u8) -> bool {
    (48 <= b <= 57) || (97 <= b <= 102) || (65 <= b <= 70)
}

/// Value of an ASCII hexadecimal digit byte.
pub open spec fn hex_val_u8(b: u8) -> int {
    if 48 <= b <= 57 {
        b - 48
    } else if 97 <= b <= 102 {
        b - 87
    } else {
        b - 55
    }
}

/// Whether a byte string is well-formed hexadecimal: even length, digits
/// only.
pub open spec fn hex_wf(bs: Seq<u8>) -> bool {
    bs.len() % 2 == 0 && forall|i: int| 0 <= i < bs.len() ==> is_hex_digit_u8(#[trigger] bs[i])
}

/// One byte for each pair of hexadecimal digit bytes.
pub open spec fn hex_pairs(bs: Seq<u8>) -> Seq<u8>
    decreases bs.len(),
{
    if bs.len() < 2 {
        Seq::empty()
    } else {
        seq![(hex_val_u8(bs[0]) * 16 + hex_val_u8(bs[1])) as u8] + hex_pairs(bs.skip(2))
    }
}

/// Relies on hex::decode: an even-length string of hexadecimal digit bytes
/// decodes to one byte per digit pair, and anything else is refused.
#[verifier::external_body]
fn hex_decode_str(s: &str) -> (r: Result<Vec<u8>, hex::FromHexError>)
    ensures
        match r {
            Ok(v) => hex_wf(s.spec_bytes()) && v@ == hex_pairs(s.spec_bytes()),
            Err(e) => !hex_wf(s.spec_bytes()),
        },
{
    hex::decode(s)
}

/// Relies on String::from_utf8: bytes yield the characters that UTF-8
/// assigns them exactly when they form a valid encoding.
#[verifier::external_body]
fn bytes_to_string(v: Vec<u8>) -> (r: Option<String>)
    ensures
        match r {
            Some(s) => vstd::utf8::valid_utf8(v@) && s@ == vstd::utf8::decode_utf8(v@),
            None => !vstd::utf8::valid_utf8(v@),
        },
{
    match String::from_utf8(v) {
        Ok(s) => Some(s),
        Err(_) => None,
    }
}

/// The characters of `s` without NUL.
pub open spec fn strip_nul(s: Seq<char>) -> Seq<char> {
    s.filter(|c: char| c != '\u{0}')
}

/// `asc`: tokens joined, read as hexadecimal byte pairs, decoded as text,
/// NUL characters removed.
pub open spec fn asc_decoded(ts: Seq<Seq<char>>) -> Result<Seq<char>, DecodeError> {
    let bs = vstd::utf8::encode_utf8(join_with(ts, Seq::empty()));
    if !hex_wf(bs) {
        Err(DecodeError::BadHex)
    } else if !vstd::utf8::valid_utf8(hex_pairs(bs)) {
        Err(DecodeError::BadUtf8)
    } else {
        Ok(strip_nul(vstd::utf8::decode_utf8(hex_pairs(bs))))
    }
}

/// The string without its NUL characters.
fn strip_nul_exec(s: &str) -> (r: String)
    ensures
        r@ == strip_nul(s@),
{
    let len: usize = s.unicode_len();
    let mut out = String::new();
    let mut i: usize = 0;
    proof {
        assert(s@.take(0).filter(|c: char| c != '\u{0}') =~= out@);
    }
    while i < len
        invariant
            i <= len,
            len == s@.len(),
            out@ == s@.take(i as int).filter(|c: char| c != '\u{0}'),
        decreases len - i,
    {
        let ghost pre = s@.take(i as int);
        proof {
            assert(s@.take(i as int + 1).drop_last() =~= pre);
            reveal_with_fuel(Seq::filter, 2);
        }
        let c = s.get_char(i);
        if c != '\u{0}' {
            let piece = s.substring_char(i, i + 1);
            proof {
                assert(piece@ =~= seq![s@[i as int]]);
            }
            out.append(piece);
        }
        proof {
            assert(s@.take(i as int + 1).filter(|c: char| c != '\u{0}') == if s@[i as int]
                != '\u{0}' {
                pre.filter(|c: char| c != '\u{0}').push(s@[i as int])
            } else {
                pre.filter(|c: char| c != '\u{0}')
            });
            if s@[i as int] != '\u{0}' {
                assert(out@ =~= pre.filter(|c: char| c != '\u{0}').push(s@[i as int]));
            }
        }
        i = i + 1;
    }
    proof {
        assert(s@.take(len as int) =~= s@);
    }
    out
}

/// Decode hexadecimal text: tokens joined, byte pairs, UTF-8, NULs removed.
pub fn decode_asc(raw_data: &Vec<&str>) -> (r: Result<String, DecodeError>)
    ensures
        match r {
            Ok(s) => asc_decoded(raw_data.deep_view()) == Ok::<Seq<char>, DecodeError>(s@),
            Err(e) => asc_decoded(raw_data.deep_view()) == Err::<Seq<char>, DecodeError>(e),
        },
{
    let joined = join_range(raw_data, 0, raw_data.len(), empty_sep());
    proof {
        assert(raw_data.deep_view().subrange(0, raw_data.deep_view().len() as int) =~= raw_data
            .deep_view());
    }
    match hex_decode_str(joined.as_str()) {
        Err(_) => Err(DecodeError::BadHex),
        Ok(bytes) => {
            match bytes_to_string(bytes) {
                None => Err(DecodeError::BadUtf8),
                Some(text) => Ok(strip_nul_exec(text.as_str())),
            }
        },
    }
}

} // verus!

verus! {

// ---- geo-coordinate exec decoding ----

/// Strict unsigned base-16 read of one token.
fn parse_hex_u32(t: &str) -> (r: Option<u32>)
    ensures
        match r {
            Some(v) => strict_hex_u32(t@) == Some(v as int),
            None => strict_hex_u32(t@) is None,
        },
{
    crate::nums::parse_u32_strict(t, 16)
}

/// Bound on a digit-group value from its length.
pub proof fn lemma_cp_digits_bound(g: Seq<u32>)
    ensures
        match cp_digits(g) {
            Some(v) => 0 <= v < pow10(g.len() as nat),
            None => true,
        },
    decreases g.len(),
{
    reveal_with_fuel(pow10, 2);
    if g.len() > 1 {
        lemma_cp_digits_bound(g.drop_last());
        if cp_digits(g) is Some {
            let hi = cp_digits(g.drop_last()).unwrap();
            assert(pow10(g.len() as nat) == 10 * pow10((g.len() - 1) as nat));
        }
    }
}

/// Bound on a group value from its length.
pub proof fn lemma_cp_group_bound(g: Seq<u32>, w: nat)
    requires
        g.len() <= w,
    ensures
        0 <= cp_group_value(g) < pow10(w),
{
    reveal_with_fuel(pow10, 2);
    let digits = if g.len() > 0 && g[0] == 43 {
        g.drop_first()
    } else {
        g
    };
    lemma_cp_digits_bound(digits);
    crate::nums::lemma_pow10_increases(digits.len() as nat, w);
    crate::nums::lemma_pow10_increases(0nat, w);
    assert(pow10(0nat) == 1);
}

/// Parse-or-zero decimal value of the code points `cps[from..to]`.
fn cp_group_exec(cps: &Vec<u32>, from: usize, to: usize) -> (r: u32)
    requires
        from <= to <= cps.len(),
        to - from <= 9,
    ensures
        r as int == cp_group_value(cps@.subrange(from as int, to as int)),
{
    let ghost g = cps@.subrange(from as int, to as int);
    let start: usize = if to > from && cps[from] == 43 {
        from + 1
    } else {
        from
    };
    let ghost digits = if g.len() > 0 && g[0] == 43 {
        g.drop_first()
    } else {
        g
    };
    proof {
        assert(digits =~= cps@.subrange(start as int, to as int));
        lemma_cp_digits_bound(digits);
        crate::nums::lemma_pow10_increases(digits.len() as nat, 9nat);
        reveal_with_fuel(pow10, 11);
        assert(pow10(9nat) == 1000000000);
    }
    if start == to {
        return 0;
    }
    let mut acc: u32 = 0;
    let mut k: usize = start;
    while k < to
        invariant
            from <= start < to <= cps@.len(),
            start <= k <= to,
            to - start <= 9,
            g == cps@.subrange(from as int, to as int),
            digits == (if g.len() > 0 && g[0] == 43 {
                g.drop_first()
            } else {
                g
            }),
            digits == cps@.subrange(start as int, to as int),
            k > start ==> cp_digits(cps@.subrange(start as int, k as int)) == Some(acc as int),
            k == start ==> acc == 0,
            (acc as int) < pow10((k - start) as nat),
        decreases to - k,
    {
        let cp = cps[k];
        let ghost pre = cps@.subrange(start as int, k as int);
        proof {
            let post = cps@.subrange(start as int, k as int + 1);
            assert(post.drop_last() =~= pre);
            assert(post.last() == cps@[k as int]);
            assert(digits[k - start] == cps@[k as int]);
        }
        if 48 <= cp && cp <= 57 {
            proof {
                lemma_cp_digits_bound(cps@.subrange(start as int, k as int + 1));
                crate::nums::lemma_pow10_increases((k - start) as nat, 8nat);
                reveal_with_fuel(pow10, 11);
                assert(pow10(8nat) == 100000000);
                assert(pow10((k + 1 - start) as nat) == 10 * pow10((k - start) as nat));
            }
            acc = acc * 10 + (cp - 48);
        } else {
            proof {
                lemma_cp_digits_invalid(digits, k - start);
            }
            return 0;
        }
        k = k + 1;
    }
    proof {
        lemma_cp_digits_bound(digits);
    }
    acc
}

/// One code point outside the digits makes the group invalid.
proof fn lemma_cp_digits_invalid(g: Seq<u32>, j: int)
    requires
        0 <= j < g.len(),
        !(48 <= g[j] <= 57),
    ensures
        cp_digits(g) is None,
    decreases g.len(),
{
    if g.len() > 1 && j < g.len() - 1 {
        lemma_cp_digits_invalid(g.drop_last(), j);
    }
}

/// Every token read as a code point, or the first structural error.
fn tokens_to_cps_exec(raw_data: &Vec<&str>) -> (r: Result<Vec<u32>, DecodeError>)
    ensures
        match r {
            Ok(v) => tokens_to_cps(raw_data.deep_view()) == Ok::<Seq<u32>, DecodeError>(v@),
            Err(e) => tokens_to_cps(raw_data.deep_view()) == Err::<Seq<u32>, DecodeError>(e),
        },
{
    let ghost ts = raw_data.deep_view();
    let mut cps: Vec<u32> = Vec::new();
    let mut i: usize = 0;
    while i < raw_data.len()
        invariant
            i <= raw_data.len(),
            ts == raw_data.deep_view(),
            ts.len() == raw_data.len(),
            cps@.len() == i,
            forall|j: int| 0 <= j < i ==> #[trigger] strict_hex_u32(ts[j]) == Some(cps@[j] as int),
        decreases raw_data.len() - i,
    {
        match parse_hex_u32(raw_data[i]) {
            None => {
                proof {
                    assert(strict_hex_u32(ts[i as int]) is None);
                }
                return Err(DecodeError::BadHex);
            },
            Some(v) => {
                cps.push(v);
            },
        }
        i = i + 1;
    }
    let mut j: usize = 0;
    while j < cps.len()
        invariant
            j <= cps@.len(),
            ts == raw_data.deep_view(),
            ts.len() == cps@.len(),
            forall|m: int| 0 <= m < ts.len() ==> #[trigger] strict_hex_u32(ts[m]) == Some(cps@[m] as int),
            forall|m: int| 0 <= m < j ==> is_scalar_cp(cps@[m] as int),
        decreases cps.len() - j,
    {
        let v = cps[j];
        if !(v < 0xD800 || (0xDFFF < v && v <= 0x10FFFF)) {
            proof {
                assert(strict_hex_u32(ts[j as int]).unwrap() == cps@[j as int] as int);
                assert(!is_scalar_cp(strict_hex_u32(ts[j as int]).unwrap()));
            }
            return Err(DecodeError::BadCodePoint);
        }
        j = j + 1;
    }
    proof {
        assert(forall|m: int|
            0 <= m < ts.len() ==> is_scalar_cp(#[trigger] strict_hex_u32(ts[m]).unwrap()));
        assert(cps@ =~= Seq::new(ts.len(), |i: int| strict_hex_u32(ts[i]).unwrap() as u32));
    }
    Ok(cps)
}

/// Shared geo path: group boundaries `d1`, `d2`, `d3` and the hemisphere
/// index `hlen`.
fn decode_geo(raw_data: &Vec<&str>, d1: usize, d2: usize, d3: usize, hlen: usize) -> (r: Result<
    String,
    DecodeError,
>)
    requires
        0 < d1 < d2 < d3 <= hlen < 11,
        d2 - d1 <= 9,
        d3 - d2 <= 9,
        d1 <= 9,
    ensures
        match r {
            Ok(s) => tokens_to_cps(raw_data.deep_view()) matches Ok(cps) && cps.len() > hlen
                && s@ == geo_decoded(cps, d1 as int, d2 as int, d3 as int, hlen as int),
            Err(e) => (tokens_to_cps(raw_data.deep_view()) matches Err(e2) && e == e2) || (
            tokens_to_cps(raw_data.deep_view()) matches Ok(cps) && cps.len() <= hlen && e
                == DecodeError::BadLength),
        },
{
    let cps = match tokens_to_cps_exec(raw_data) {
        Ok(v) => v,
        Err(e) => {
            return Err(e);
        },
    };
    if cps.len() <= hlen {
        return Err(DecodeError::BadLength);
    }
    let g1 = cp_group_exec(&cps, 0, d1);
    let g2 = cp_group_exec(&cps, d1, d2);
    let g3 = cp_group_exec(&cps, d2, d3);
    let hemi = cps[hlen];
    proof {
        lemma_cp_group_bound(cps@.subrange(0, d1 as int), 9nat);
        lemma_cp_group_bound(cps@.subrange(d1 as int, d2 as int), 9nat);
        lemma_cp_group_bound(cps@.subrange(d2 as int, d3 as int), 9nat);
        reveal_with_fuel(pow10, 11);
        assert(pow10(9nat) == 1000000000);
    }
    let m: u64 = (g1 as u64) + ((g2 as u64) + (g3 as u64) / 10000) / 60;
    let value: i32 = if hemi == 87 || hemi == 83 {
        -(m as i32)
    } else {
        m as i32
    };
    Ok(crate::nums::i32_to_dec(value))
}

/// Decode a longitude: ten tokens as characters, split 3/2/4/1.
pub fn decode_longitude(raw_data: &Vec<&str>) -> (r: Result<String, DecodeError>)
    ensures
        match r {
            Ok(s) => longitude_decoded(raw_data.deep_view()) == Ok::<Seq<char>, DecodeError>(s@),
            Err(e) => longitude_decoded(raw_data.deep_view()) == Err::<Seq<char>, DecodeError>(e),
        },
{
    decode_geo(raw_data, 3, 5, 9, 9)
}

/// Decode a latitude: nine tokens as characters, split 2/2/4/1.
pub fn decode_latitude(raw_data: &Vec<&str>) -> (r: Result<String, DecodeError>)
    ensures
        match r {
            Ok(s) => latitude_decoded(raw_data.deep_view()) == Ok::<Seq<char>, DecodeError>(s@),
            Err(e) => latitude_decoded(raw_data.deep_view()) == Err::<Seq<char>, DecodeError>(e),
        },
{
    decode_geo(raw_data, 2, 4, 8, 8)
}

} // verus!

verus! {

// ---- the fixed-point formats and the variable itself ----

/// Decode three integer tokens and the rest fraction, base 10, over 100.
pub fn decode_b31(raw_data: &Vec<&str>) -> (r: Result<String, DecodeError>)
    ensures
        match r {
            Ok(s) => raw_data.deep_view().len() >= 3 && s@ == b31_decoded(raw_data.deep_view()),
            Err(e) => raw_data.deep_view().len() < 3 && e == DecodeError::BadLength,
        },
{
    if raw_data.len() < 3 {
        return Err(DecodeError::BadLength);
    }
    proof {
        assert(raw_data.deep_view().skip(3) =~= raw_data.deep_view().subrange(
            3,
            raw_data.deep_view().len() as int,
        ));
    }
    Ok(decode_fixed(raw_data, 0, 3, 3, raw_data.len(), 10, 2))
}

/// Decode two integer tokens and two fraction tokens, base 10, over 10000.
pub fn decode_b22(raw_data: &Vec<&str>) -> (r: Result<String, DecodeError>)
    ensures
        match r {
            Ok(s) => raw_data.deep_view().len() >= 4 && s@ == b22_decoded(raw_data.deep_view()),
            Err(e) => raw_data.deep_view().len() < 4 && e == DecodeError::BadLength,
        },
{
    if raw_data.len() < 4 {
        return Err(DecodeError::BadLength);
    }
    Ok(decode_fixed(raw_data, 0, 2, 2, 4, 10, 4))
}

/// Decode one integer token and one fraction token, base 10, over 100.
pub fn decode_b11(raw_data: &Vec<&str>) -> (r: Result<String, DecodeError>)
    ensures
        match r {
            Ok(s) => raw_data.deep_view().len() >= 2 && s@ == b11_decoded(raw_data.deep_view()),
            Err(e) => raw_data.deep_view().len() < 2 && e == DecodeError::BadLength,
        },
{
    if raw_data.len() < 2 {
        return Err(DecodeError::BadLength);
    }
    proof {
        lemma_single_join(raw_data.deep_view(), 0);
        lemma_single_join(raw_data.deep_view(), 1);
    }
    Ok(decode_fixed(raw_data, 0, 1, 1, 2, 10, 2))
}

/// Decode one integer token and one fraction token, base 16, over 100.
pub fn decode_jf2(raw_data: &Vec<&str>) -> (r: Result<String, DecodeError>)
    ensures
        match r {
            Ok(s) => raw_data.deep_view().len() >= 2 && s@ == jf2_decoded(raw_data.deep_view()),
            Err(e) => raw_data.deep_view().len() < 2 && e == DecodeError::BadLength,
        },
{
    if raw_data.len() < 2 {
        return Err(DecodeError::BadLength);
    }
    proof {
        lemma_single_join(raw_data.deep_view(), 0);
        lemma_single_join(raw_data.deep_view(), 1);
    }
    Ok(decode_fixed(raw_data, 0, 1, 1, 2, 16, 2))
}

/// Decode two integer tokens and the rest fraction, base 16, over 100.
pub fn decode_jf4(raw_data: &Vec<&str>) -> (r: Result<String, DecodeError>)
    ensures
        match r {
            Ok(s) => raw_data.deep_view().len() >= 2 && s@ == jf4_decoded(raw_data.deep_view()),
            Err(e) => raw_data.deep_view().len() < 2 && e == DecodeError::BadLength,
        },
{
    if raw_data.len() < 2 {
        return Err(DecodeError::BadLength);
    }
    proof {
        assert(raw_data.deep_view().skip(2) =~= raw_data.deep_view().subrange(
            2,
            raw_data.deep_view().len() as int,
        ));
    }
    Ok(decode_fixed(raw_data, 0, 2, 2, raw_data.len(), 16, 2))
}

/// Joining one token is that token.
proof fn lemma_single_join(ts: Seq<Seq<char>>, k: int)
    requires
        0 <= k < ts.len(),
    ensures
        join_with(ts.subrange(k, k + 1), Seq::empty()) == ts[k],
{
    assert(ts.subrange(k, k + 1) =~= seq![ts[k]]);
    assert(join_with(seq![ts[k]], Seq::empty()) == ts[k]);
}

/// Decode all tokens joined as one base-16 integer over 100.
pub fn decode_dec2b(raw_data: &Vec<&str>) -> (r: String)
    ensures
        r@ == dec2b_decoded(raw_data.deep_view()),
{
    let istr = join_range(raw_data, 0, raw_data.len(), empty_sep());
    proof {
        assert(raw_data.deep_view().subrange(0, raw_data.deep_view().len() as int) =~= raw_data
            .deep_view());
    }
    let ipart = str_to_int(istr.as_str(), 16);
    fixed_to_dec(ipart as i64, 2)
}

impl Var {
    /// Create a new variable slot.
    pub fn new(
        id: i32,
        size: i32,
        format: String,
        name: String,
        base_var_id: i32,
        value: String,
        code: Option<String>,
    ) -> (r: Self)
        ensures
            r.id == id,
            r.size == size,
            r.format == format,
            r.name == name,
            r.base_var_id == base_var_id,
            r.value == value,
            r.code == code,
    {
        Self { id, size, format, name, base_var_id, value, code }
    }

    /// What decoding a token list means for each format tag.  An unknown
    /// tag decodes to the empty string.
    pub open spec fn decoded(fmt: Seq<char>, ts: Seq<Seq<char>>) -> Result<Seq<char>, DecodeError> {
        if fmt == "longitude"@ {
            longitude_decoded(ts)
        } else if fmt == "latitude"@ {
            latitude_decoded(ts)
        } else if fmt == "bcd"@ {
            Ok(bcd_decoded(ts))
        } else if fmt == "dec"@ {
            Ok(dec_decoded(ts))
        } else if fmt == "b31"@ {
            if ts.len() >= 3 {
                Ok(b31_decoded(ts))
            } else {
                Err(DecodeError::BadLength)
            }
        } else if fmt == "b22"@ {
            if ts.len() >= 4 {
                Ok(b22_decoded(ts))
            } else {
                Err(DecodeError::BadLength)
            }
        } else if fmt == "b11"@ {
            if ts.len() >= 2 {
                Ok(b11_decoded(ts))
            } else {
                Err(DecodeError::BadLength)
            }
        } else if fmt == "asc"@ {
            asc_decoded(ts)
        } else if fmt == "hex"@ {
            Ok(hex_decoded(ts))
        } else if fmt == "jf2"@ {
            if ts.len() >= 2 {
                Ok(jf2_decoded(ts))
            } else {
                Err(DecodeError::BadLength)
            }
        } else if fmt == "jf4"@ {
            if ts.len() >= 2 {
                Ok(jf4_decoded(ts))
            } else {
                Err(DecodeError::BadLength)
            }
        } else if fmt == "dec2b"@ {
            Ok(dec2b_decoded(ts))
        } else {
            Ok(Seq::empty())
        }
    }

    /// Decode a token list by this variable's format.
    pub fn decode_tokens(&self, data: &Vec<&str>) -> (r: Result<String, DecodeError>)
        ensures
            match r {
                Ok(s) => Self::decoded(self.format@, data.deep_view()) == Ok::<
                    Seq<char>,
                    DecodeError,
                >(s@),
                Err(e) => Self::decoded(self.format@, data.deep_view()) == Err::<
                    Seq<char>,
                    DecodeError,
                >(e),
            },
    {
        let fmt = self.format.as_str();
        if str_eq(fmt, "longitude") {
            decode_longitude(data)
        } else if str_eq(fmt, "latitude") {
            decode_latitude(data)
        } else if str_eq(fmt, "bcd") {
            Ok(decode_bcd(data))
        } else if str_eq(fmt, "dec") {
            Ok(decode_dec(data))
        } else if str_eq(fmt, "b31") {
            decode_b31(data)
        } else if str_eq(fmt, "b22") {
            decode_b22(data)
        } else if str_eq(fmt, "b11") {
            decode_b11(data)
        } else if str_eq(fmt, "asc") {
            decode_asc(data)
        } else if str_eq(fmt, "hex") {
            Ok(decode_hex(data))
        } else if str_eq(fmt, "jf2") {
            decode_jf2(data)
        } else if str_eq(fmt, "jf4") {
            decode_jf4(data)
        } else if str_eq(fmt, "dec2b") {
            Ok(decode_dec2b(data))
        } else {
            let r = String::new();
            proof {
                assert(r@ =~= Seq::<char>::empty());
            }
            Ok(r)
        }
    }

    /// Decode raw space-separated data by this variable's format.
    pub fn decode(&self, raw_data: &str) -> (r: Result<String, DecodeError>)
        ensures
            match r {
                Ok(s) => Self::decoded(self.format@, split_by(raw_data@, ' ')) == Ok::<
                    Seq<char>,
                    DecodeError,
                >(s@),
                Err(e) => Self::decoded(self.format@, split_by(raw_data@, ' ')) == Err::<
                    Seq<char>,
                    DecodeError,
                >(e),
            },
    {
        let data = split_str(raw_data, ' ');
        self.decode_tokens(&data)
    }
}

} // verus!
