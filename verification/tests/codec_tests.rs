use rgb_ring::LEDRingError;
use rgb_ring::codec::{convert_hex_to_rgb, convert_rgb_to_grb, convert_string_to_hex};

#[test]
fn test_hex_conversion() -> Result<(), String> {
    let hex = 0x112233;
    let rgb = convert_hex_to_rgb(&hex).map_err(|e| e.message())?;

    if rgb[0] == 17 && rgb[1] == 34 && rgb[2] == 51 {
        Ok(())
    } else {
        Err(format!("RGB values incorrect: R:{}, G:{}, B:{}", rgb[0], rgb[1], rgb[2]))
    }
}

#[test]
fn test_hex_to_grb() -> Result<(), String> {
    let hex = 0x112233;
    let rgb = convert_hex_to_rgb(&hex).map_err(|e| e.message())?;
    if rgb[0] != 17 && rgb[1] != 34 && rgb[2] != 51 {
        return Err(format!("RGB values incorrect: R:{}, G:{}, B:{}", rgb[0], rgb[1], rgb[2]));
    }
    let grb = convert_rgb_to_grb(rgb).map_err(|e| e.message())?;
    assert_eq!(grb.len(), 3 as usize);

    if grb[1] == 17 && grb[0] == 34 && grb[2] == 51 {
        Ok(())
    } else {
        Err(format!("GRB values incorrect: G:{}, R:{}, B:{}", grb[0], grb[1], grb[2]))
    }
}

#[test]
fn hex_to_rgb_round_trips_across_range() {
    for v in [0x000000u32, 0x000001, 0x112233, 0xABCDEF, 0x800000, 0xFFFFFF] {
        let rgb = convert_hex_to_rgb(&v).unwrap();
        let packed = ((rgb[0] as u32) << 16) | ((rgb[1] as u32) << 8) | (rgb[2] as u32);
        assert_eq!(packed, v);
    }
}

#[test]
fn hex_to_rgb_rejects_values_over_24_bits() {
    assert!(matches!(convert_hex_to_rgb(&0x1000000), Err(LEDRingError::ParseError(_))));
    assert!(matches!(convert_hex_to_rgb(&u32::MAX), Err(LEDRingError::ParseError(_))));
    assert!(matches!(convert_hex_to_rgb(&0xFFFFFF), Ok(_)));
}

#[test]
fn rgb_to_grb_swaps_red_and_green() {
    let grb = convert_rgb_to_grb(vec![17, 34, 51]).unwrap();
    assert_eq!(grb, vec![34, 17, 51]);
}

#[test]
fn rgb_to_grb_rejects_wrong_channel_count() {
    assert!(matches!(convert_rgb_to_grb(vec![1, 2]), Err(LEDRingError::ParseError(_))));
    assert!(matches!(convert_rgb_to_grb(vec![1, 2, 3, 4]), Err(LEDRingError::ParseError(_))));
    assert!(matches!(convert_rgb_to_grb(vec![]), Err(LEDRingError::ParseError(_))));
}

#[test]
fn parse_hex_string_accepts_hash_prefixed_hex() {
    assert_eq!(convert_string_to_hex("#112233".to_owned()).unwrap(), 0x112233);
    assert_eq!(convert_string_to_hex("#0".to_owned()).unwrap(), 0);
    assert_eq!(convert_string_to_hex("#abcDEF".to_owned()).unwrap(), 0xABCDEF);
    assert_eq!(convert_string_to_hex("#FFFFFFFF".to_owned()).unwrap(), u32::MAX);
}

#[test]
fn parse_hex_string_rejects_missing_hash() {
    assert!(matches!(
        convert_string_to_hex("112233".to_owned()),
        Err(LEDRingError::ParseError(_))
    ));
}

#[test]
fn parse_hex_string_rejects_invalid_digits() {
    assert!(matches!(
        convert_string_to_hex("#ZZZZZZ".to_owned()),
        Err(LEDRingError::ParseError(_))
    ));
    assert!(matches!(
        convert_string_to_hex("#12g3".to_owned()),
        Err(LEDRingError::ParseError(_))
    ));
    assert!(matches!(
        convert_string_to_hex("#d\u{e9}".to_owned()),
        Err(LEDRingError::ParseError(_))
    ));
}

#[test]
fn parse_hex_string_rejects_empty_and_overflowing_input() {
    assert!(matches!(convert_string_to_hex("".to_owned()), Err(LEDRingError::ParseError(_))));
    assert!(matches!(convert_string_to_hex("#".to_owned()), Err(LEDRingError::ParseError(_))));
    assert!(matches!(
        convert_string_to_hex("#100000000".to_owned()),
        Err(LEDRingError::ParseError(_))
    ));
}

#[test]
fn error_message_is_kept() {
    let e = LEDRingError::IoError("bus write failed".to_owned());
    assert!(matches!(e, LEDRingError::IoError(_)));
    assert_eq!(e.message(), "bus write failed".to_owned());
}
