//! Control samples and the threshold that makes a button of them.
//!
//! A control input is a single-precision float. The library never computes
//! with it: it holds the sample as its IEEE 754 bit pattern and only asks
//! whether the encoded number is greater than one half.
use vstd::arithmetic::power2::{lemma2_to64, lemma_pow2_adds, lemma_pow2_pos, lemma_pow2_strictly_increases, pow2};
use vstd::prelude::*;

verus! {

/// Bit pattern of `0.5`, the threshold.
pub const HALF_BITS: u32 = 0x3F00_0000;

/// Bit pattern of positive infinity, the largest pattern that is a number.
pub const INFINITY_BITS: u32 = 0x7F80_0000;

/// Whether the sign bit of the pattern is set.
pub open spec fn negative(bits: u32) -> bool {
    bits >= 0x8000_0000
}

/// The eight exponent bits of the pattern.
pub open spec fn exponent_of(bits: u32) -> int {
    (bits as int / 0x80_0000) % 0x100
}

/// The twenty-three fraction bits of the pattern.
pub open spec fn fraction_of(bits: u32) -> int {
    bits as int % 0x80_0000
}

/// Whether the pattern encodes no number at all.
pub open spec fn is_nan(bits: u32) -> bool {
    exponent_of(bits) == 0xFF && fraction_of(bits) != 0
}

/// Whether the pattern encodes an infinity.
pub open spec fn is_infinite(bits: u32) -> bool {
    exponent_of(bits) == 0xFF && fraction_of(bits) == 0
}

/// Absolute value of a finite pattern, counted in units of 2^-149, the
/// smallest positive single-precision number.
pub open spec fn magnitude(bits: u32) -> nat {
    if exponent_of(bits) == 0 {
        fraction_of(bits) as nat
    } else {
        ((0x80_0000 + fraction_of(bits)) * pow2((exponent_of(bits) - 1) as nat)) as nat
    }
}

/// One half, counted in units of 2^-149.
pub open spec fn half_magnitude() -> nat {
    pow2(148)
}

/// The pattern encodes a number greater than one half. No NaN is greater
/// than anything, and positive infinity is greater than every number.
pub open spec fn pressed(bits: u32) -> bool {
    &&& !negative(bits)
    &&& !is_nan(bits)
    &&& (is_infinite(bits) || magnitude(bits) > half_magnitude())
}

/// Among the positive normal numbers, those above one half are the ones
/// whose exponent is above that of one half, or equal to it with a fraction.
proof fn lemma_normal_magnitude(e: int, f: int)
    requires
        1 <= e <= 254,
        0 <= f < 0x80_0000,
    ensures
        ((0x80_0000 + f) * pow2((e - 1) as nat) > pow2(148)) == (e > 126 || (e == 126 && f > 0)),
{
    let p = pow2((e - 1) as nat);
    lemma2_to64();
    lemma_pow2_pos((e - 1) as nat);
    if e <= 125 {
        lemma_pow2_adds(24, (e - 1) as nat);
        if e + 23 < 148 {
            lemma_pow2_strictly_increases((e + 23) as nat, 148);
        }
        assert((0x80_0000 + f) * p <= 0x100_0000 * p) by (nonlinear_arith)
            requires
                0 <= f < 0x80_0000,
                p > 0,
        ;
    } else if e == 126 {
        lemma_pow2_adds(23, 125);
        assert((0x80_0000 + f) * p == 0x80_0000 * p + f * p) by (nonlinear_arith);
        assert((f * p > 0) == (f > 0)) by (nonlinear_arith)
            requires
                0 <= f,
                p > 0,
        ;
    } else {
        lemma_pow2_adds(23, (e - 1) as nat);
        lemma_pow2_strictly_increases(148, (e + 22) as nat);
        assert((0x80_0000 + f) * p >= 0x80_0000 * p) by (nonlinear_arith)
            requires
                0 <= f,
                p > 0,
        ;
    }
}

/// A pattern encodes a number greater than one half exactly when it lies
/// above the pattern of one half and not above that of positive infinity.
pub proof fn lemma_pressed_patterns(bits: u32)
    ensures
        pressed(bits) <==> HALF_BITS < bits <= INFINITY_BITS,
{
    if !negative(bits) && 1 <= exponent_of(bits) <= 254 {
        lemma_normal_magnitude(exponent_of(bits), fraction_of(bits));
    }
    if exponent_of(bits) == 0 {
        lemma2_to64();
        lemma_pow2_strictly_increases(23, 148);
    }
}

/// Tests a control sample against the threshold: strictly above one half.
pub fn is_pressed(bits: u32) -> (r: bool)
    ensures
        r == pressed(bits),
{
    proof {
        lemma_pressed_patterns(bits);
    }
    HALF_BITS < bits && bits <= INFINITY_BITS
}

/// The button-like control inputs that a key binding can listen to.
#[derive(Clone, Copy, Debug, PartialEq, Eq, Structural)]
pub enum Signal {
    Play,
    Pause,
    Stop,
    Record,
    Previous,
    Next,
    Rewind,
    Forward,
    Repeat,
    LowerVolume,
    RaiseVolume,
    Mute,
    Media,
}

/// The control inputs of one cycle, each as the bit pattern of its sample.
///
/// A snapshot is read during the cycle it was taken for and not kept.
#[derive(Clone, Copy, Debug, PartialEq, Eq)]
pub struct ControlValues {
    pub play: u32,
    pub pause: u32,
    pub stop: u32,
    pub record: u32,
    pub previous: u32,
    pub next: u32,
    pub rewind: u32,
    pub forward: u32,
    pub repeat: u32,
    pub lower_volume: u32,
    pub raise_volume: u32,
    pub mute: u32,
    pub media: u32,
    /// Switches the pitch-bend seek on for the cycle.
    pub enable_pitch_to_seek: u32,
}

impl ControlValues {
    /// The sample that the snapshot holds for a signal.
    pub open spec fn bits_of(self, signal: Signal) -> u32 {
        match signal {
            Signal::Play => self.play,
            Signal::Pause => self.pause,
            Signal::Stop => self.stop,
            Signal::Record => self.record,
            Signal::Previous => self.previous,
            Signal::Next => self.next,
            Signal::Rewind => self.rewind,
            Signal::Forward => self.forward,
            Signal::Repeat => self.repeat,
            Signal::LowerVolume => self.lower_volume,
            Signal::RaiseVolume => self.raise_volume,
            Signal::Mute => self.mute,
            Signal::Media => self.media,
        }
    }

    /// A snapshot in which every input, the seek switch included, holds `bits`.
    pub fn filled(bits: u32) -> (values: ControlValues)
        ensures
            forall|signal: Signal| values.bits_of(signal) == bits,
            values.enable_pitch_to_seek == bits,
    {
        ControlValues {
            play: bits,
            pause: bits,
            stop: bits,
            record: bits,
            previous: bits,
            next: bits,
            rewind: bits,
            forward: bits,
            repeat: bits,
            lower_volume: bits,
            raise_volume: bits,
            mute: bits,
            media: bits,
            enable_pitch_to_seek: bits,
        }
    }

    /// Reads the sample of one signal.
    pub fn get(&self, signal: Signal) -> (bits: u32)
        ensures
            bits == self.bits_of(signal),
    {
        match signal {
            Signal::Play => self.play,
            Signal::Pause => self.pause,
            Signal::Stop => self.stop,
            Signal::Record => self.record,
            Signal::Previous => self.previous,
            Signal::Next => self.next,
            Signal::Rewind => self.rewind,
            Signal::Forward => self.forward,
            Signal::Repeat => self.repeat,
            Signal::LowerVolume => self.lower_volume,
            Signal::RaiseVolume => self.raise_volume,
            Signal::Mute => self.mute,
            Signal::Media => self.media,
        }
    }

    /// Replaces the sample of one signal and leaves the others, and the seek switch,
    /// as they are.
    pub fn set(&mut self, signal: Signal, bits: u32)
        ensures
            final(self).bits_of(signal) == bits,
            forall|other: Signal| other != signal ==> final(self).bits_of(other) == old(self).bits_of(other),
            final(self).enable_pitch_to_seek == old(self).enable_pitch_to_seek,
    {
        match signal {
            Signal::Play => self.play = bits,
            Signal::Pause => self.pause = bits,
            Signal::Stop => self.stop = bits,
            Signal::Record => self.record = bits,
            Signal::Previous => self.previous = bits,
            Signal::Next => self.next = bits,
            Signal::Rewind => self.rewind = bits,
            Signal::Forward => self.forward = bits,
            Signal::Repeat => self.repeat = bits,
            Signal::LowerVolume => self.lower_volume = bits,
            Signal::RaiseVolume => self.raise_volume = bits,
            Signal::Mute => self.mute = bits,
            Signal::Media => self.media = bits,
        }
    }
}

} // verus!
