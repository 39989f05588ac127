//! LED ring state: the per-LED color buffer, the brightness level, and the
//! render step that turns both into a wire frame.

use vstd::prelude::*;

use crate::LEDRingError;
use crate::codec::{convert_hex_to_rgb, hex_to_rgb_spec};
use crate::encoder::{encode_spec, get_spi_data};

verus! {

/// Full brightness. Levels are fixed-point per-mille values: a level `b`
/// scales every channel by `b / 1000`, and the accepted range is
/// `1..=BRIGHTNESS_SCALE` — zero is rejected by design, since it would be
/// indistinguishable from "not set" and gives no visible output.
pub const BRIGHTNESS_SCALE: u32 = 1000;

/// The flat channel slot of LED `index`: its channels occupy
/// `[3 * index, 3 * index + 3)` in the buffer. This is the one place where
/// that arithmetic is written down.
pub open spec fn slot(index: int, channel: int) -> int {
    3 * index + channel
}

/// The buffer after overwriting the three channel slots of LED `index`.
pub open spec fn buffer_with_rgb(buf: Seq<u8>, index: int, rgb: Seq<u8>) -> Seq<u8>
    recommends
        0 <= index,
        slot(index, 3) <= buf.len(),
        rgb.len() == 3,
{
    buf.update(slot(index, 0), rgb[0]).update(slot(index, 1), rgb[1]).update(
        slot(index, 2),
        rgb[2],
    )
}

/// One channel scaled by `level / BRIGHTNESS_SCALE`, rounded to the nearest
/// integer. For levels up to `BRIGHTNESS_SCALE` the result always fits a
/// byte again.
pub open spec fn scale_channel(c: u8, level: u32) -> u8
    recommends
        1 <= level <= BRIGHTNESS_SCALE,
{
    (((c as int) * (level as int) + (BRIGHTNESS_SCALE as int) / 2) / (
    BRIGHTNESS_SCALE as int)) as u8
}

/// The whole buffer scaled channel by channel.
pub open spec fn scaled_buffer_spec(buf: Seq<u8>, level: u32) -> Seq<u8> {
    Seq::new(buf.len(), |i: int| scale_channel(buf[i], level))
}

/// The state of one LED ring: a flat buffer of `3 * num_leds` channel
/// intensities in RGB order, never resized after construction, and the
/// brightness level applied at render time (never baked into the buffer).
pub struct LEDRing {
    num_leds: u8,
    brightness: u32,
    current_rgb_values: Vec<u8>,
}

impl LEDRing {
    /// The number of LEDs the ring was constructed with.
    pub closed spec fn led_count(&self) -> u8 {
        self.num_leds
    }

    /// The stored brightness level.
    pub closed spec fn brightness_level(&self) -> u32 {
        self.brightness
    }

    /// The stored, unscaled channel buffer.
    pub closed spec fn buffer(&self) -> Seq<u8> {
        self.current_rgb_values@
    }

    /// Well-formedness: the level is in range and the buffer holds exactly
    /// three channels per LED.
    pub open spec fn wf(&self) -> bool {
        &&& 1 <= self.brightness_level() <= BRIGHTNESS_SCALE
        &&& self.buffer().len() == 3 * self.led_count()
    }

    /// The wire frame a render of this state produces: the buffer scaled by
    /// the brightness level, then expanded into pulse bytes.
    pub open spec fn frame_spec(&self) -> Seq<u8> {
        encode_spec(scaled_buffer_spec(self.buffer(), self.brightness_level()))
    }

    /// Builds a ring of `num_leds` LEDs with a zeroed buffer. A missing
    /// brightness defaults to full; a given one must be in
    /// `1..=BRIGHTNESS_SCALE` or construction fails with `ValueError`.
    pub fn new(num_leds: u8, brightness: Option<u32>) -> (r: Result<LEDRing, LEDRingError>)
        ensures
            match r {
                Ok(ring) => {
                    &&& match brightness {
                        Some(b) => 1 <= b <= BRIGHTNESS_SCALE && ring.brightness_level() == b,
                        None => ring.brightness_level() == BRIGHTNESS_SCALE,
                    }
                    &&& ring.led_count() == num_leds
                    &&& ring.buffer() == Seq::new(3 * num_leds as nat, |i: int| 0u8)
                    &&& ring.wf()
                },
                Err(e) => {
                    &&& brightness matches Some(b) && !(1 <= b <= BRIGHTNESS_SCALE)
                    &&& e is ValueError
                },
            },
    {
        let level: u32 = match brightness {
            Some(b) => {
                if b == 0 || b > BRIGHTNESS_SCALE {
                    return Err(LEDRingError::ValueError(
                        "Brightness can not be smaller than 0 or greater than 1.".to_owned(),
                    ));
                }
                b
            },
            None => BRIGHTNESS_SCALE,
        };
        let size: usize = 3 * (num_leds as usize);
        let mut buf: Vec<u8> = Vec::new();
        let mut i: usize = 0;
        while i < size
            invariant
                i <= size,
                buf@.len() == i,
                forall|j: int| 0 <= j < i ==> buf@[j] == 0u8,
            decreases size - i,
        {
            buf.push(0);
            i = i + 1;
        }
        let ring = LEDRing { num_leds, brightness: level, current_rgb_values: buf };
        assert(ring.buffer() =~= Seq::new(3 * num_leds as nat, |i: int| 0u8));
        Ok(ring)
    }

    /// Replaces the brightness level. Fails with `ValueError` exactly when
    /// the level is zero or above `BRIGHTNESS_SCALE`; the buffer is never
    /// touched, so the new level affects subsequent renders only.
    pub fn set_brigthness(&mut self, brightness: u32) -> (r: Result<(), LEDRingError>)
        requires
            old(self).wf(),
        ensures
            final(self).wf(),
            final(self).led_count() == old(self).led_count(),
            final(self).buffer() == old(self).buffer(),
            match r {
                Ok(_) => 1 <= brightness <= BRIGHTNESS_SCALE && final(self).brightness_level()
                    == brightness,
                Err(e) => {
                    &&& !(1 <= brightness <= BRIGHTNESS_SCALE)
                    &&& e is ValueError
                    &&& final(self).brightness_level() == old(self).brightness_level()
                },
            },
    {
        if brightness == 0 || brightness > BRIGHTNESS_SCALE {
            Err(LEDRingError::ValueError(
                "Brightness can not be smaller than 0 or greater than 1.".to_owned(),
            ))
        } else {
            self.brightness = brightness;
            Ok(())
        }
    }

    /// The stored brightness level.
    pub fn brightness(&self) -> (b: u32)
        ensures
            b == self.brightness_level(),
    {
        self.brightness
    }

    /// Overwrites the three channel slots of LED `led_idx` with the given
    /// `[red, green, blue]` triple. Fails with `IndexError` when the index
    /// is at or past the end of the ring, and with `ParseError` when the
    /// triple does not have exactly three channels; a failed call leaves the
    /// buffer unchanged.
    pub fn set_led_values_rgb(&mut self, led_idx: u8, values: &Vec<u8>) -> (r: Result<
        (),
        LEDRingError,
    >)
        requires
            old(self).wf(),
        ensures
            final(self).wf(),
            final(self).led_count() == old(self).led_count(),
            final(self).brightness_level() == old(self).brightness_level(),
            match r {
                Ok(_) => {
                    &&& led_idx < old(self).led_count()
                    &&& values@.len() == 3
                    &&& final(self).buffer() == buffer_with_rgb(
                        old(self).buffer(),
                        led_idx as int,
                        values@,
                    )
                },
                Err(e) => {
                    &&& final(self).buffer() == old(self).buffer()
                    &&& if led_idx >= old(self).led_count() {
                        e is IndexError
                    } else {
                        values@.len() != 3 && e is ParseError
                    }
                },
            },
    {
        if led_idx >= self.num_leds {
            return Err(LEDRingError::IndexError("LED index is out of range.".to_owned()));
        }
        if values.len() != 3 {
            return Err(LEDRingError::ParseError("Expected 3 values.".to_owned()));
        }
        let s0: usize = channel_slot(led_idx, 0);
        let s1: usize = channel_slot(led_idx, 1);
        let s2: usize = channel_slot(led_idx, 2);
        self.current_rgb_values[s0] = values[0];
        self.current_rgb_values[s1] = values[1];
        self.current_rgb_values[s2] = values[2];
        Ok(())
    }

    /// Reads the `[red, green, blue]` triple of LED `idx` back out of the
    /// buffer. Fails with `IndexError` exactly when `idx` is at or past the
    /// end of the ring: valid indices are `0..num_leds`.
    pub fn get_led_values_rgb(&self, idx: u8) -> (r: Result<Vec<u8>, LEDRingError>)
        requires
            self.wf(),
        ensures
            match r {
                Ok(rgb) => idx < self.led_count() && rgb@ == seq![
                    self.buffer()[slot(idx as int, 0)],
                    self.buffer()[slot(idx as int, 1)],
                    self.buffer()[slot(idx as int, 2)],
                ],
                Err(e) => idx >= self.led_count() && e is IndexError,
            },
    {
        if idx >= self.num_leds {
            return Err(LEDRingError::IndexError("LED index is out of range.".to_owned()));
        }
        let mut rgb: Vec<u8> = Vec::new();
        rgb.push(self.current_rgb_values[channel_slot(idx, 0)]);
        rgb.push(self.current_rgb_values[channel_slot(idx, 1)]);
        rgb.push(self.current_rgb_values[channel_slot(idx, 2)]);
        assert(rgb@ =~= seq![
            self.buffer()[slot(idx as int, 0)],
            self.buffer()[slot(idx as int, 1)],
            self.buffer()[slot(idx as int, 2)],
        ]);
        Ok(rgb)
    }

    /// Converts a packed 24-bit hex color and stores it at LED `led_idx`.
    /// Fails with `ParseError` when the value does not fit in 24 bits, and
    /// with `IndexError` when the index is out of range.
    pub fn set_led_values_hex(&mut self, led_idx: u8, hex_value: &u32) -> (r: Result<
        (),
        LEDRingError,
    >)
        requires
            old(self).wf(),
        ensures
            final(self).wf(),
            final(self).led_count() == old(self).led_count(),
            final(self).brightness_level() == old(self).brightness_level(),
            match r {
                Ok(_) => {
                    &&& *hex_value <= 0xFFFFFF
                    &&& led_idx < old(self).led_count()
                    &&& final(self).buffer() == buffer_with_rgb(
                        old(self).buffer(),
                        led_idx as int,
                        hex_to_rgb_spec(*hex_value),
                    )
                },
                Err(e) => {
                    &&& final(self).buffer() == old(self).buffer()
                    &&& if *hex_value > 0xFFFFFF {
                        e is ParseError
                    } else {
                        led_idx >= old(self).led_count() && e is IndexError
                    }
                },
            },
    {
        let rgb = match convert_hex_to_rgb(hex_value) {
            Ok(v) => v,
            Err(e) => return Err(e),
        };
        self.set_led_values_rgb(led_idx, &rgb)
    }

    /// A scaled working copy of the buffer; the stored buffer itself is
    /// never scaled, so repeated renders do not darken it further.
    fn apply_brightness(&self) -> (scaled: Vec<u8>)
        requires
            self.wf(),
        ensures
            scaled@ == scaled_buffer_spec(self.buffer(), self.brightness_level()),
    {
        let len: usize = self.current_rgb_values.len();
        let mut out: Vec<u8> = Vec::new();
        let mut i: usize = 0;
        while i < len
            invariant
                self.wf(),
                len == self.buffer().len(),
                i <= len,
                out@.len() == i,
                forall|j: int|
                    0 <= j < i ==> out@[j] == scale_channel(
                        self.buffer()[j],
                        self.brightness_level(),
                    ),
            decreases len - i,
        {
            let c: u8 = self.current_rgb_values[i];
            proof {
                assert((c as int) * (self.brightness_level() as int) <= 255 * 1000)
                    by (nonlinear_arith)
                    requires
                        c <= 255,
                        self.brightness_level() <= 1000,
                ;
            }
            let scaled: u32 = ((c as u32) * self.brightness + BRIGHTNESS_SCALE / 2)
                / BRIGHTNESS_SCALE;
            out.push(scaled as u8);
            i = i + 1;
        }
        assert(out@ =~= scaled_buffer_spec(self.buffer(), self.brightness_level()));
        out
    }

    /// Produces the wire frame for the current state: the buffer scaled by
    /// the brightness level, expanded into pulse bytes. The stored buffer is
    /// left untouched; handing the frame to the transport is the caller's
    /// step.
    pub fn render_frame(&self) -> (frame: Vec<u8>)
        requires
            self.wf(),
        ensures
            frame@ == self.frame_spec(),
            frame@.len() == 8 * self.buffer().len(),
    {
        let scaled = self.apply_brightness();
        get_spi_data(&scaled)
    }
}

/// The buffer position of one channel of one LED.
fn channel_slot(index: u8, channel: usize) -> (s: usize)
    requires
        channel < 3,
    ensures
        s == slot(index as int, channel as int),
{
    (index as usize) * 3 + channel
}

/// The wire frame depends on the stored colors and the brightness level
/// alone: two renders of rings in the same state — in particular two
/// consecutive renders of an unchanged ring — produce identical frames, so
/// brightness scaling never compounds.
pub proof fn lemma_render_deterministic(first: &LEDRing, second: &LEDRing)
    requires
        first.buffer() == second.buffer(),
        first.brightness_level() == second.brightness_level(),
    ensures
        first.frame_spec() == second.frame_spec(),
{
}

} // verus!
