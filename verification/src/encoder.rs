//! Bit encoder: expands each 8-bit intensity value into the eight fixed
//! pulse-width bytes of the self-clocked serial waveform.

use vstd::prelude::*;

verus! {

/// Whether bit `pos` (0 = least significant) of `v` is set.
pub open spec fn bit_at(v: u8, pos: u8) -> bool
    recommends
        pos < 8,
{
    (v >> pos) & 1 == 1
}

/// The waveform byte for one input bit: a set bit becomes the long-high
/// pulse `0xF8` (five high cycles, three low), a clear bit the short-high
/// pulse `0x80` (one high cycle, seven low). These two ratios are the
/// protocol contract of the target LED chipset.
pub open spec fn pulse_byte(bit: bool) -> u8 {
    if bit {
        0xF8
    } else {
        0x80
    }
}

/// The whole wire frame: one output byte per input bit, each input byte's
/// bits landing contiguously at offset `8 * i`, most-significant bit first.
pub open spec fn encode_spec(data: Seq<u8>) -> Seq<u8> {
    Seq::new(data.len() * 8, |j: int| pulse_byte(bit_at(data[j / 8], (7 - (j % 8)) as u8)))
}

/// Expands a byte buffer into the serial waveform the LEDs require.
///
/// Never fails; the output always holds exactly eight bytes per input byte,
/// for any input including the empty buffer.
pub fn get_spi_data(values: &Vec<u8>) -> (tx: Vec<u8>)
    ensures
        tx@ == encode_spec(values@),
        tx@.len() == 8 * values@.len(),
{
    let mut tx: Vec<u8> = Vec::new();
    let mut i: usize = 0;
    while i < values.len()
        invariant
            i <= values@.len(),
            tx@.len() == 8 * i,
            forall|j: int|
                0 <= j < tx@.len() ==> tx@[j] == pulse_byte(
                    bit_at(values@[j / 8], (7 - (j % 8)) as u8),
                ),
        decreases values@.len() - i,
    {
        let v: u8 = values[i];
        let mut k: usize = 0;
        while k < 8
            invariant
                i < values@.len(),
                v == values@[i as int],
                k <= 8,
                tx@.len() == 8 * i + k,
                forall|j: int|
                    0 <= j < tx@.len() ==> tx@[j] == pulse_byte(
                        bit_at(values@[j / 8], (7 - (j % 8)) as u8),
                    ),
            decreases 8 - k,
        {
            let shift: u8 = (7 - k) as u8;
            let current_bit: u8 = (v >> shift) & 1;
            let encoded: u8 = if current_bit == 1 {
                0xF8
            } else {
                0x80
            };
            proof {
                assert(encoded == pulse_byte(bit_at(v, shift)));
                assert((8 * i + k) / 8 == i && (8 * i + k) % 8 == k);
            }
            tx.push(encoded);
            k = k + 1;
        }
        i = i + 1;
    }
    assert(tx@ =~= encode_spec(values@));
    tx
}

} // verus!
