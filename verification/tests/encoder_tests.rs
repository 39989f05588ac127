use rgb_ring::encoder::get_spi_data;

#[test]
fn encode_single_msb_byte_is_long_pulse_first() {
    let tx = get_spi_data(&vec![0b1000_0000]);
    assert_eq!(tx, vec![0xF8, 0x80, 0x80, 0x80, 0x80, 0x80, 0x80, 0x80]);
}

#[test]
fn encode_is_eight_bytes_per_input_byte() {
    assert_eq!(get_spi_data(&vec![]).len(), 0);
    assert_eq!(get_spi_data(&vec![0]).len(), 8);
    assert_eq!(get_spi_data(&vec![1, 2, 3]).len(), 24);
    assert_eq!(get_spi_data(&vec![0xFF; 10]).len(), 80);
}

#[test]
fn encode_places_bits_most_significant_first() {
    let tx = get_spi_data(&vec![0xFF, 0x00, 0b0101_0101]);
    assert_eq!(&tx[0..8], &[0xF8; 8]);
    assert_eq!(&tx[8..16], &[0x80; 8]);
    assert_eq!(&tx[16..24], &[0x80, 0xF8, 0x80, 0xF8, 0x80, 0xF8, 0x80, 0xF8]);
}
