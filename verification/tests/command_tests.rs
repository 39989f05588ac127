use rgb_ring::LEDRingError;
use rgb_ring::commands::{
    LEDRingCommands, apply_command, set_multiple_hex, set_multiple_rgb, set_single_hex,
    set_single_rgb,
};
use rgb_ring::ring::LEDRing;

#[test]
fn single_rgb_command_sets_one_led() {
    let mut ring = LEDRing::new(4, None).unwrap();
    apply_command(&mut ring, LEDRingCommands::SetSingleRGB { index: 2, r: 9, g: 8, b: 7 })
        .unwrap();
    assert_eq!(ring.get_led_values_rgb(2).unwrap(), vec![9, 8, 7]);
    assert_eq!(ring.get_led_values_rgb(1).unwrap(), vec![0, 0, 0]);
}

#[test]
fn single_rgb_command_reports_bad_index() {
    let mut ring = LEDRing::new(4, None).unwrap();
    assert!(matches!(
        set_single_rgb(&mut ring, 4, 1, 2, 3),
        Err(LEDRingError::IndexError(_))
    ));
}

#[test]
fn single_hex_command_parses_and_sets() {
    let mut ring = LEDRing::new(4, None).unwrap();
    apply_command(
        &mut ring,
        LEDRingCommands::SetSingleHEX { index: 0, hex: "#112233".to_owned() },
    )
    .unwrap();
    assert_eq!(ring.get_led_values_rgb(0).unwrap(), vec![17, 34, 51]);
}

#[test]
fn single_hex_command_reports_bad_string() {
    let mut ring = LEDRing::new(4, None).unwrap();
    assert!(matches!(
        set_single_hex(&mut ring, 0, "112233".to_owned()),
        Err(LEDRingError::ParseError(_))
    ));
    assert!(matches!(
        set_single_hex(&mut ring, 0, "#1000000".to_owned()),
        Err(LEDRingError::ParseError(_))
    ));
    assert_eq!(ring.get_led_values_rgb(0).unwrap(), vec![0, 0, 0]);
}

#[test]
fn multiple_rgb_command_sets_each_listed_led() {
    let mut ring = LEDRing::new(4, None).unwrap();
    apply_command(
        &mut ring,
        LEDRingCommands::SetMultipleRGB { indices: vec![0, 2], r: 1, g: 2, b: 3 },
    )
    .unwrap();
    assert_eq!(ring.get_led_values_rgb(0).unwrap(), vec![1, 2, 3]);
    assert_eq!(ring.get_led_values_rgb(1).unwrap(), vec![0, 0, 0]);
    assert_eq!(ring.get_led_values_rgb(2).unwrap(), vec![1, 2, 3]);
}

#[test]
fn multiple_rgb_command_stops_at_first_bad_index() {
    let mut ring = LEDRing::new(4, None).unwrap();
    assert!(matches!(
        set_multiple_rgb(&mut ring, &vec![0, 9, 1], 5, 6, 7),
        Err(LEDRingError::IndexError(_))
    ));
    // The write before the failure stays; the one after never happens.
    assert_eq!(ring.get_led_values_rgb(0).unwrap(), vec![5, 6, 7]);
    assert_eq!(ring.get_led_values_rgb(1).unwrap(), vec![0, 0, 0]);
}

#[test]
fn multiple_hex_command_sets_each_listed_led() {
    let mut ring = LEDRing::new(4, None).unwrap();
    apply_command(
        &mut ring,
        LEDRingCommands::SetMultipleHEX { indices: vec![3, 1], hex: "#A0B0C0".to_owned() },
    )
    .unwrap();
    assert_eq!(ring.get_led_values_rgb(1).unwrap(), vec![0xA0, 0xB0, 0xC0]);
    assert_eq!(ring.get_led_values_rgb(3).unwrap(), vec![0xA0, 0xB0, 0xC0]);
    assert_eq!(ring.get_led_values_rgb(0).unwrap(), vec![0, 0, 0]);
}

#[test]
fn multiple_hex_command_rejects_bad_hex_before_writing() {
    let mut ring = LEDRing::new(4, None).unwrap();
    assert!(matches!(
        set_multiple_hex(&mut ring, &vec![0, 1], "#XY".to_owned()),
        Err(LEDRingError::ParseError(_))
    ));
    assert_eq!(ring.get_led_values_rgb(0).unwrap(), vec![0, 0, 0]);
    assert_eq!(ring.get_led_values_rgb(1).unwrap(), vec![0, 0, 0]);
}

#[test]
fn duplicate_indices_apply_in_order() {
    let mut ring = LEDRing::new(2, None).unwrap();
    set_multiple_rgb(&mut ring, &vec![0, 0], 4, 5, 6).unwrap();
    assert_eq!(ring.get_led_values_rgb(0).unwrap(), vec![4, 5, 6]);
}
