//! Color codec: packed 24-bit hex values, RGB triples, and the device's
//! native wire channel order.

use vstd::prelude::*;

use crate::LEDRingError;

verus! {

/// The RGB triple packed in a 24-bit value: bits `[23:16]` are red,
/// `[15:8]` green, `[7:0]` blue.
pub open spec fn hex_to_rgb_spec(v: u32) -> Seq<u8> {
    seq![((v >> 16) & 0xFF) as u8, ((v >> 8) & 0xFF) as u8, (v & 0xFF) as u8]
}

/// Packing a three-channel triple back into a 24-bit value.
pub open spec fn rgb_to_hex_spec(rgb: Seq<u8>) -> u32
    recommends
        rgb.len() == 3,
{
    ((rgb[0] as u32) << 16) | ((rgb[1] as u32) << 8) | (rgb[2] as u32)
}

/// Converts a packed 24-bit hex color into its `[red, green, blue]` triple.
///
/// Fails with `ParseError` exactly when the value does not fit in 24 bits.
pub fn convert_hex_to_rgb(hex_value: &u32) -> (r: Result<Vec<u8>, LEDRingError>)
    ensures
        match r {
            Ok(rgb) => *hex_value <= 0xFFFFFF && rgb@ == hex_to_rgb_spec(*hex_value),
            Err(e) => *hex_value > 0xFFFFFF && e is ParseError,
        },
{
    if *hex_value <= 0xFFFFFF {
        assert((*hex_value >> 16) & 0xFF < 256 && (*hex_value >> 8) & 0xFF < 256
            && *hex_value & 0xFF < 256) by (bit_vector);
        let red: u8 = ((*hex_value >> 16) & 0xFF) as u8;
        let green: u8 = ((*hex_value >> 8) & 0xFF) as u8;
        let blue: u8 = (*hex_value & 0xFF) as u8;
        let mut rgb: Vec<u8> = Vec::new();
        rgb.push(red);
        rgb.push(green);
        rgb.push(blue);
        assert(rgb@ =~= hex_to_rgb_spec(*hex_value));
        Ok(rgb)
    } else {
        Err(LEDRingError::ParseError(
            "HEX color value must be a positive 24bit number.".to_owned(),
        ))
    }
}

/// The device-native channel order: the common ring hardware clocks green
/// first, then red, then blue.
pub open spec fn rgb_to_grb_spec(rgb: Seq<u8>) -> Seq<u8>
    recommends
        rgb.len() == 3,
{
    seq![rgb[1], rgb[0], rgb[2]]
}

/// Permutes an `[red, green, blue]` triple into the device's wire order
/// `[green, red, blue]`.
///
/// Fails with `ParseError` exactly when the input does not have three
/// channels; no scaling and no other change is applied.
pub fn convert_rgb_to_grb(rgb: Vec<u8>) -> (r: Result<Vec<u8>, LEDRingError>)
    ensures
        match r {
            Ok(grb) => rgb@.len() == 3 && grb@ == rgb_to_grb_spec(rgb@),
            Err(e) => rgb@.len() != 3 && e is ParseError,
        },
{
    if rgb.len() != 3 {
        return Err(LEDRingError::ParseError("RGB vector must have len 3".to_owned()));
    }
    let mut grb: Vec<u8> = Vec::new();
    grb.push(rgb[1]);
    grb.push(rgb[0]);
    grb.push(rgb[2]);
    assert(grb@ =~= rgb_to_grb_spec(rgb@));
    Ok(grb)
}

/// True for the sixteen ASCII hexadecimal digit characters.
pub open spec fn is_hex_digit(c: char) -> bool {
    ('0' <= c && c <= '9') || ('a' <= c && c <= 'f') || ('A' <= c && c <= 'F')
}

/// The numeric value of a hexadecimal digit character (0 on other characters).
pub open spec fn hex_digit_val(c: char) -> int {
    if '0' <= c && c <= '9' {
        c as int - '0' as int
    } else if 'a' <= c && c <= 'f' {
        10 + (c as int - 'a' as int)
    } else if 'A' <= c && c <= 'F' {
        10 + (c as int - 'A' as int)
    } else {
        0
    }
}

/// The base-16 value of a digit sequence, most-significant digit first.
pub open spec fn hex_val(digits: Seq<char>) -> int
    decreases digits.len(),
{
    if digits.len() == 0 {
        0
    } else {
        hex_val(digits.drop_last()) * 16 + hex_digit_val(digits.last())
    }
}

/// A string the parser accepts: a leading `#`, at least one digit, every
/// remaining character a hexadecimal digit, and a value that fits in `u32`.
pub open spec fn valid_hex_string(s: Seq<char>) -> bool {
    &&& s.len() >= 2
    &&& s[0] == '#'
    &&& forall|i: int| 1 <= i < s.len() ==> is_hex_digit(#[trigger] s[i])
    &&& hex_val(s.skip(1)) <= u32::MAX
}

proof fn lemma_hex_val_nonneg(digits: Seq<char>)
    ensures
        hex_val(digits) >= 0,
    decreases digits.len(),
{
    if digits.len() > 0 {
        lemma_hex_val_nonneg(digits.drop_last());
    }
}

/// Digits appended on the right only grow the value: the whole sequence is
/// worth at least sixteen times any strict prefix.
proof fn lemma_hex_val_extend(digits: Seq<char>, k: int)
    requires
        0 <= k < digits.len(),
    ensures
        hex_val(digits) >= 16 * hex_val(digits.take(k)),
    decreases digits.len(),
{
    lemma_hex_val_nonneg(digits.take(k));
    if digits.len() == k + 1 {
        assert(digits.drop_last() =~= digits.take(k));
    } else {
        lemma_hex_val_extend(digits.drop_last(), k);
        assert(digits.drop_last().take(k) =~= digits.take(k));
        lemma_hex_val_nonneg(digits.drop_last());
    }
}

/// Parses a `#`-prefixed base-16 color string into its numeric value.
///
/// Fails with `ParseError` exactly when the leading `#` is missing, no digit
/// follows it, a non-hex character occurs, or the value overflows `u32`.
pub fn convert_string_to_hex(hex_string: String) -> (r: Result<u32, LEDRingError>)
    ensures
        match r {
            Ok(v) => valid_hex_string(hex_string@) && v as int == hex_val(hex_string@.skip(1)),
            Err(e) => !valid_hex_string(hex_string@) && e is ParseError,
        },
{
    let s: &str = hex_string.as_str();
    if !s.is_ascii() {
        proof {
            if valid_hex_string(s@) {
                assert forall|i: int| 0 <= i < s@.len() implies '\0' <= #[trigger] s@[i]
                    <= '\u{7f}' by {
                    if i >= 1 {
                        assert(is_hex_digit(s@[i]));
                    }
                }
                assert(vstd::string::is_ascii(s));
            }
        }
        return Err(LEDRingError::ParseError("HEX values must be ASCII.".to_owned()));
    }
    proof {
        vstd::utf8::is_ascii_chars_encode_utf8(s@);
    }
    let bytes: &[u8] = s.as_bytes();
    let n: usize = bytes.len();
    if n < 2 {
        return Err(LEDRingError::ParseError("HEX values must start with a #.".to_owned()));
    }
    if bytes[0] != 35 {
        assert(s@[0] != '#');
        return Err(LEDRingError::ParseError("HEX values must start with a #.".to_owned()));
    }
    assert(s@[0] == '#');
    let mut value: u32 = 0;
    let mut i: usize = 1;
    while i < n
        invariant
            s@ == hex_string@,
            vstd::utf8::is_ascii_chars(s@),
            n == s@.len(),
            2 <= n,
            bytes@.len() == n,
            forall|j: int| 0 <= j < n ==> bytes@[j] == s@[j] as u8,
            1 <= i <= n,
            forall|j: int| 1 <= j < i ==> is_hex_digit(#[trigger] s@[j]),
            value as int == hex_val(s@.subrange(1, i as int)),
        decreases n - i,
    {
        let d8: u8 = bytes[i];
        proof {
            assert(s@[i as int] as u8 == d8);
            assert('\0' <= s@[i as int] <= '\u{7f}');
        }
        let d: u32;
        if 48 <= d8 && d8 <= 57 {
            d = (d8 - 48) as u32;
        } else if 97 <= d8 && d8 <= 102 {
            d = (d8 - 97) as u32 + 10;
        } else if 65 <= d8 && d8 <= 70 {
            d = (d8 - 65) as u32 + 10;
        } else {
            proof {
                assert(!is_hex_digit(s@[i as int]));
            }
            return Err(LEDRingError::ParseError(
                "Error while parsing the HEX value.".to_owned(),
            ));
        }
        proof {
            assert(hex_digit_val(s@[i as int]) == d as int);
        }
        if value >= 0x1000_0000 {
            proof {
                lemma_hex_val_extend(s@.skip(1), i - 1);
                assert(s@.skip(1).take(i - 1) =~= s@.subrange(1, i as int));
                assert(hex_val(s@.skip(1)) > u32::MAX);
            }
            return Err(LEDRingError::ParseError(
                "HEX value does not fit in 32 bits.".to_owned(),
            ));
        }
        proof {
            let prefix = s@.subrange(1, i as int);
            assert(prefix.push(s@[i as int]).drop_last() =~= prefix);
            assert(prefix.push(s@[i as int]) =~= s@.subrange(1, i + 1));
        }
        value = value * 16 + d;
        i = i + 1;
    }
    assert(s@.subrange(1, n as int) =~= s@.skip(1));
    Ok(value)
}

/// Splitting a 24-bit value into channels and packing them again gives the
/// value back.
pub proof fn lemma_hex_rgb_round_trip(v: u32)
    requires
        v <= 0xFFFFFF,
    ensures
        rgb_to_hex_spec(hex_to_rgb_spec(v)) == v,
{
    assert(((((v >> 16) & 0xFF) as u8 as u32) << 16) | ((((v >> 8) & 0xFF) as u8 as u32) << 8)
        | ((v & 0xFF) as u8 as u32) == v) by (bit_vector)
        requires
            v <= 0xFFFFFF,
    ;
}

} // verus!
