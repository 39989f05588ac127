//! The command surface: the subcommands the CLI maps onto the ring, and the
//! verified dispatch that applies one command to the ring state. The binary
//! around the library parses arguments, hands a `LEDRingCommands` value in,
//! and writes the rendered frame to the bus afterwards.

use vstd::prelude::*;

use crate::LEDRingError;
use crate::codec::{
    convert_hex_to_rgb, convert_string_to_hex, hex_to_rgb_spec, hex_val, valid_hex_string,
};
use crate::ring::{LEDRing, buffer_with_rgb};

verus! {

/// The global arguments of the command line, with the brightness already
/// converted to the library's fixed-point level. `config` is reserved and
/// not consumed by any operation.
pub struct LEDRingCliArgs {
    /// Number of LEDs on the ring.
    pub leds: u8,
    /// Brightness level in `1..=BRIGHTNESS_SCALE`; `None` defaults to full.
    pub brightness: Option<u32>,
    /// Reserved path to a configuration file.
    pub config: Option<String>,
    /// The operation to apply.
    pub command: LEDRingCommands,
}

/// One LED-ring operation: color one LED or several, from an RGB triple or
/// from a `#`-prefixed hex string.
pub enum LEDRingCommands {
    /// Set the color of the LED at `index` from three channel values.
    SetSingleRGB { index: u8, r: u8, g: u8, b: u8 },
    /// Set the color of the LED at `index` from a hex string.
    SetSingleHEX { index: u8, hex: String },
    /// Set the same RGB color on every LED in `indices`, in order.
    SetMultipleRGB { indices: Vec<u8>, r: u8, g: u8, b: u8 },
    /// Set the same hex color on every LED in `indices`, in order.
    SetMultipleHEX { indices: Vec<u8>, hex: String },
}

/// Every index addresses an LED of the ring.
pub open spec fn all_indices_ok(indices: Seq<u8>, count: u8) -> bool {
    forall|j: int| 0 <= j < indices.len() ==> indices[j] < count
}

/// The position of the first out-of-range index (the length when there is
/// none).
pub open spec fn first_bad_index(indices: Seq<u8>, count: u8) -> int
    decreases indices.len(),
{
    if indices.len() == 0 {
        0
    } else if indices[0] >= count {
        0
    } else {
        1 + first_bad_index(indices.drop_first(), count)
    }
}

/// The buffer after writing the same triple at each index in turn; a later
/// duplicate index simply overwrites the earlier write.
pub open spec fn rgb_updates(buf: Seq<u8>, indices: Seq<u8>, rgb: Seq<u8>) -> Seq<u8>
    decreases indices.len(),
{
    if indices.len() == 0 {
        buf
    } else {
        buffer_with_rgb(rgb_updates(buf, indices.drop_last(), rgb), indices.last() as int, rgb)
    }
}

/// The RGB triple a hex command carries, when the string parses and the
/// value fits in 24 bits.
pub open spec fn hex_color_spec(s: Seq<char>) -> Option<Seq<u8>> {
    if valid_hex_string(s) && hex_val(s.skip(1)) <= 0xFFFFFF {
        Some(hex_to_rgb_spec(hex_val(s.skip(1)) as u32))
    } else {
        None
    }
}

/// A command never resizes the ring and never changes the brightness level.
pub open spec fn config_preserved(pre: LEDRing, post: LEDRing) -> bool {
    &&& post.wf()
    &&& post.led_count() == pre.led_count()
    &&& post.brightness_level() == pre.brightness_level()
}

/// Outcome of coloring one LED from a three-channel triple: the slots are
/// overwritten, or an out-of-range index is reported and nothing changes.
pub open spec fn single_rgb_post(
    pre: LEDRing,
    post: LEDRing,
    res: Result<(), LEDRingError>,
    index: u8,
    rgb: Seq<u8>,
) -> bool {
    match res {
        Ok(_) => index < pre.led_count() && post.buffer() == buffer_with_rgb(
            pre.buffer(),
            index as int,
            rgb,
        ),
        Err(e) => post.buffer() == pre.buffer() && index >= pre.led_count() && e is IndexError,
    }
}

/// Outcome of coloring one LED from a hex string: as `single_rgb_post` once
/// the string yields a triple, and `ParseError` with nothing changed when it
/// does not.
pub open spec fn single_hex_post(
    pre: LEDRing,
    post: LEDRing,
    res: Result<(), LEDRingError>,
    index: u8,
    s: Seq<char>,
) -> bool {
    match hex_color_spec(s) {
        Some(rgb) => single_rgb_post(pre, post, res, index, rgb),
        None => post.buffer() == pre.buffer() && match res {
            Ok(_) => false,
            Err(e) => e is ParseError,
        },
    }
}

/// Outcome of coloring several LEDs: all writes applied in order, or the
/// first out-of-range index is reported with exactly the writes before it
/// applied.
pub open spec fn multi_rgb_post(
    pre: LEDRing,
    post: LEDRing,
    res: Result<(), LEDRingError>,
    indices: Seq<u8>,
    rgb: Seq<u8>,
) -> bool {
    match res {
        Ok(_) => all_indices_ok(indices, pre.led_count()) && post.buffer() == rgb_updates(
            pre.buffer(),
            indices,
            rgb,
        ),
        Err(e) => {
            &&& !all_indices_ok(indices, pre.led_count())
            &&& e is IndexError
            &&& post.buffer() == rgb_updates(
                pre.buffer(),
                indices.take(first_bad_index(indices, pre.led_count())),
                rgb,
            )
        },
    }
}

/// Outcome of coloring several LEDs from a hex string.
pub open spec fn multi_hex_post(
    pre: LEDRing,
    post: LEDRing,
    res: Result<(), LEDRingError>,
    indices: Seq<u8>,
    s: Seq<char>,
) -> bool {
    match hex_color_spec(s) {
        Some(rgb) => multi_rgb_post(pre, post, res, indices, rgb),
        None => post.buffer() == pre.buffer() && match res {
            Ok(_) => false,
            Err(e) => e is ParseError,
        },
    }
}

proof fn lemma_first_bad_index_at(indices: Seq<u8>, count: u8, i: int)
    requires
        0 <= i < indices.len(),
        forall|j: int| 0 <= j < i ==> indices[j] < count,
        indices[i] >= count,
    ensures
        first_bad_index(indices, count) == i,
    decreases i,
{
    if i > 0 {
        let rest = indices.drop_first();
        assert forall|j: int| 0 <= j < i - 1 implies rest[j] < count by {
            assert(rest[j] == indices[j + 1]);
        }
        assert(rest[i - 1] == indices[i]);
        lemma_first_bad_index_at(rest, count, i - 1);
    }
}

/// Colors the LED at `index` with the given channel values.
pub fn set_single_rgb(ring: &mut LEDRing, index: u8, red: u8, green: u8, blue: u8) -> (res: Result<
    (),
    LEDRingError,
>)
    requires
        old(ring).wf(),
    ensures
        config_preserved(*old(ring), *final(ring)),
        single_rgb_post(*old(ring), *final(ring), res, index, seq![red, green, blue]),
{
    let mut vals: Vec<u8> = Vec::new();
    vals.push(red);
    vals.push(green);
    vals.push(blue);
    assert(vals@ =~= seq![red, green, blue]);
    ring.set_led_values_rgb(index, &vals)
}

/// Colors the LED at `index` from a `#`-prefixed hex string.
pub fn set_single_hex(ring: &mut LEDRing, index: u8, hex: String) -> (res: Result<
    (),
    LEDRingError,
>)
    requires
        old(ring).wf(),
    ensures
        config_preserved(*old(ring), *final(ring)),
        single_hex_post(*old(ring), *final(ring), res, index, hex@),
{
    let value: u32 = match convert_string_to_hex(hex) {
        Ok(v) => v,
        Err(e) => return Err(e),
    };
    ring.set_led_values_hex(index, &value)
}

/// Colors every LED in `indices`, in order, with the given channel values.
/// The first out-of-range index stops the walk; the writes before it stay.
pub fn set_multiple_rgb(
    ring: &mut LEDRing,
    indices: &Vec<u8>,
    red: u8,
    green: u8,
    blue: u8,
) -> (res: Result<(), LEDRingError>)
    requires
        old(ring).wf(),
    ensures
        config_preserved(*old(ring), *final(ring)),
        multi_rgb_post(*old(ring), *final(ring), res, indices@, seq![red, green, blue]),
{
    let mut vals: Vec<u8> = Vec::new();
    vals.push(red);
    vals.push(green);
    vals.push(blue);
    assert(vals@ =~= seq![red, green, blue]);
    let mut i: usize = 0;
    while i < indices.len()
        invariant
            ring.wf(),
            ring.led_count() == old(ring).led_count(),
            ring.brightness_level() == old(ring).brightness_level(),
            vals@ == seq![red, green, blue],
            i <= indices@.len(),
            forall|j: int| 0 <= j < i ==> indices@[j] < old(ring).led_count(),
            ring.buffer() == rgb_updates(old(ring).buffer(), indices@.take(i as int), vals@),
        decreases indices@.len() - i,
    {
        let idx: u8 = indices[i];
        match ring.set_led_values_rgb(idx, &vals) {
            Ok(_) => {
                proof {
                    assert(indices@.take(i + 1).drop_last() =~= indices@.take(i as int));
                    assert(indices@.take(i + 1).last() == indices@[i as int]);
                }
            },
            Err(e) => {
                proof {
                    lemma_first_bad_index_at(indices@, old(ring).led_count(), i as int);
                }
                return Err(e);
            },
        }
        i = i + 1;
    }
    assert(indices@.take(indices@.len() as int) =~= indices@);
    Ok(())
}

/// Colors every LED in `indices`, in order, from a `#`-prefixed hex string.
pub fn set_multiple_hex(ring: &mut LEDRing, indices: &Vec<u8>, hex: String) -> (res: Result<
    (),
    LEDRingError,
>)
    requires
        old(ring).wf(),
    ensures
        config_preserved(*old(ring), *final(ring)),
        multi_hex_post(*old(ring), *final(ring), res, indices@, hex@),
{
    let value: u32 = match convert_string_to_hex(hex) {
        Ok(v) => v,
        Err(e) => return Err(e),
    };
    let rgb = match convert_hex_to_rgb(&value) {
        Ok(v) => v,
        Err(e) => return Err(e),
    };
    assert(rgb@ =~= seq![rgb@[0], rgb@[1], rgb@[2]]);
    set_multiple_rgb(ring, indices, rgb[0], rgb[1], rgb[2])
}

/// Applies one command to the ring: the verified dispatch behind the CLI.
pub fn apply_command(ring: &mut LEDRing, command: LEDRingCommands) -> (res: Result<
    (),
    LEDRingError,
>)
    requires
        old(ring).wf(),
    ensures
        config_preserved(*old(ring), *final(ring)),
        match command {
            LEDRingCommands::SetSingleRGB { index, r, g, b } => single_rgb_post(
                *old(ring),
                *final(ring),
                res,
                index,
                seq![r, g, b],
            ),
            LEDRingCommands::SetSingleHEX { index, hex } => single_hex_post(
                *old(ring),
                *final(ring),
                res,
                index,
                hex@,
            ),
            LEDRingCommands::SetMultipleRGB { indices, r, g, b } => multi_rgb_post(
                *old(ring),
                *final(ring),
                res,
                indices@,
                seq![r, g, b],
            ),
            LEDRingCommands::SetMultipleHEX { indices, hex } => multi_hex_post(
                *old(ring),
                *final(ring),
                res,
                indices@,
                hex@,
            ),
        },
{
    match command {
        LEDRingCommands::SetSingleRGB { index, r, g, b } => set_single_rgb(ring, index, r, g, b),
        LEDRingCommands::SetSingleHEX { index, hex } => set_single_hex(ring, index, hex),
        LEDRingCommands::SetMultipleRGB { indices, r, g, b } => set_multiple_rgb(
            ring,
            &indices,
            r,
            g,
            b,
        ),
        LEDRingCommands::SetMultipleHEX { indices, hex } => set_multiple_hex(ring, &indices, hex),
    }
}

} // verus!
