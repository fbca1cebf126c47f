use aquafeed::codec::{DecodeError, Var};
use aquafeed::nums::{str_to_int, str_to_int64, ustr_to_int};

fn var_with_format(format: &str) -> Var {
    Var::new(
        1,
        4,
        format.to_string(),
        "v".to_string(),
        7,
        String::new(),
        Some("0C03".to_string()),
    )
}

#[test]
fn b22_representative_value() {
    let v = var_with_format("b22");
    assert_eq!(v.decode("00 10 25 25").unwrap(), "10.2525");
}

#[test]
fn b22_all_zero() {
    let v = var_with_format("b22");
    assert_eq!(v.decode("00 00 00 00").unwrap(), "0");
}

#[test]
fn b31_representative_value() {
    let v = var_with_format("b31");
    assert_eq!(v.decode("00 00 25 25").unwrap(), "25.25");
}

#[test]
fn b31_all_zero() {
    let v = var_with_format("b31");
    assert_eq!(v.decode("00 00 00 00").unwrap(), "0");
}

#[test]
fn b11_representative_value() {
    let v = var_with_format("b11");
    assert_eq!(v.decode("10 25").unwrap(), "10.25");
}

#[test]
fn b11_fraction_with_trailing_zero() {
    let v = var_with_format("b11");
    assert_eq!(v.decode("10 50").unwrap(), "10.5");
}

#[test]
fn jf2_reads_base_sixteen() {
    let v = var_with_format("jf2");
    // 0x10 = 16 units, 0x19 = 25 hundredths.
    assert_eq!(v.decode("10 19").unwrap(), "16.25");
}

#[test]
fn jf4_carries_fraction_into_units() {
    let v = var_with_format("jf4");
    // integer 0x00FF = 255, fraction 0x0064 = 100; 255 + 100/100 = 256.
    assert_eq!(v.decode("00 FF 00 64").unwrap(), "256");
}

#[test]
fn jf4_all_zero() {
    let v = var_with_format("jf4");
    assert_eq!(v.decode("00 00 00 00").unwrap(), "0");
}

#[test]
fn dec2b_divides_by_hundred() {
    let v = var_with_format("dec2b");
    // 0x03E8 = 1000, over 100 = 10.
    assert_eq!(v.decode("03 E8").unwrap(), "10");
}

#[test]
fn dec2b_all_zero() {
    let v = var_with_format("dec2b");
    assert_eq!(v.decode("00").unwrap(), "0");
}

#[test]
fn dec_concatenates_and_reads_hex() {
    let v = var_with_format("dec");
    assert_eq!(v.decode("01 00").unwrap(), "256");
}

#[test]
fn bcd_reads_each_token() {
    let v = var_with_format("bcd");
    assert_eq!(v.decode("0A 10 FF").unwrap(), "10 16 255");
}

#[test]
fn hex_joins_verbatim() {
    let v = var_with_format("hex");
    assert_eq!(v.decode("DE AD BE EF").unwrap(), "DE AD BE EF");
}

#[test]
fn asc_decodes_text_and_strips_nul() {
    let v = var_with_format("asc");
    // "Hola" with a NUL byte in the middle.
    assert_eq!(v.decode("48 6F 00 6C 61").unwrap(), "Hola");
}

#[test]
fn asc_rejects_odd_hex() {
    let v = var_with_format("asc");
    assert_eq!(v.decode("48 6F 6").unwrap_err(), DecodeError::BadHex);
}

#[test]
fn asc_rejects_bad_utf8() {
    let v = var_with_format("asc");
    assert_eq!(v.decode("FF FE").unwrap_err(), DecodeError::BadUtf8);
}

#[test]
fn unknown_format_decodes_empty() {
    let v = var_with_format("xyz");
    assert_eq!(v.decode("01 02").unwrap(), "");
}

#[test]
fn b31_too_short_is_an_error() {
    let v = var_with_format("b31");
    assert_eq!(v.decode("01 02").unwrap_err(), DecodeError::BadLength);
}

#[test]
fn b22_too_short_is_an_error() {
    let v = var_with_format("b22");
    assert_eq!(v.decode("01 02 03").unwrap_err(), DecodeError::BadLength);
}

#[test]
fn longitude_decodes_degrees_and_hemisphere() {
    let v = var_with_format("longitude");
    // code points of "0791234", then 5 (fraction), then 'W' (0x57):
    // tokens are the hex of each character code point.
    // "079" degrees, "12" minutes, "3455" fraction, hemisphere W.
    // value = 79 + (12 + 3455/10000)/60 = 79, negated = -79.
    let raw = "30 37 39 31 32 33 34 35 35 57";
    assert_eq!(v.decode(raw).unwrap(), "-79");
}

#[test]
fn latitude_decodes_north_positive() {
    let v = var_with_format("latitude");
    // "02" degrees, "90" minutes, "0000" fraction, hemisphere N (0x4E):
    // 2 + (90 + 0)/60 = 3.
    let raw = "30 32 39 30 30 30 30 30 4E";
    assert_eq!(v.decode(raw).unwrap(), "3");
}

#[test]
fn longitude_rejects_bad_hex_token() {
    let v = var_with_format("longitude");
    let raw = "30 37 39 31 32 33 34 35 35 ZZ";
    assert_eq!(v.decode(raw).unwrap_err(), DecodeError::BadHex);
}

#[test]
fn longitude_rejects_invalid_code_point() {
    let v = var_with_format("longitude");
    // 0xD800 is a surrogate: no character exists for it.
    let raw = "30 37 39 31 32 33 34 35 35 D800";
    assert_eq!(v.decode(raw).unwrap_err(), DecodeError::BadCodePoint);
}

#[test]
fn longitude_too_short_is_an_error() {
    let v = var_with_format("longitude");
    assert_eq!(v.decode("30 37").unwrap_err(), DecodeError::BadLength);
}

#[test]
fn str_to_int_parses_or_zeroes() {
    assert_eq!(str_to_int("FF", 16), 255);
    assert_eq!(str_to_int("-12", 10), -12);
    assert_eq!(str_to_int("+7", 10), 7);
    assert_eq!(str_to_int("xyz", 10), 0);
    assert_eq!(str_to_int("", 16), 0);
    assert_eq!(str_to_int("99999999999", 10), 0);
}

#[test]
fn ustr_to_int_rejects_negative() {
    assert_eq!(ustr_to_int("FF", 16), 255);
    assert_eq!(ustr_to_int("-5", 16), 0);
    assert_eq!(ustr_to_int("FFFFFFFF", 16), u32::MAX);
    assert_eq!(ustr_to_int("100000000", 16), 0);
}

#[test]
fn str_to_int64_ignores_spaces() {
    assert_eq!(str_to_int64("0 1 0 0", 16), 256);
    assert_eq!(str_to_int64("7F FF", 16), 32767);
    assert_eq!(str_to_int64("zz", 16), 0);
}
