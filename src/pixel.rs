use vstd::prelude::*;

verus! {

/// Number of pixels on the LED strip.
pub const NUM_LEDS: usize = 160;

/// One LED's colour, 8 bits per channel.
#[derive(Clone, Copy, Debug, PartialEq, Eq, Structural)]
pub struct Pixel {
    pub r: u8,
    pub g: u8,
    pub b: u8,
}

pub open spec fn black() -> Pixel {
    Pixel { r: 0, g: 0, b: 0 }
}

pub open spec fn white() -> Pixel {
    Pixel { r: 255, g: 255, b: 255 }
}

impl Pixel {
    /// All channels off.
    pub fn off() -> (p: Pixel)
        ensures
            p == black(),
    {
        Pixel { r: 0, g: 0, b: 0 }
    }

    /// All channels at full intensity.
    pub fn full() -> (p: Pixel)
        ensures
            p == white(),
    {
        Pixel { r: 255, g: 255, b: 255 }
    }
}

/// `x - level`, clamped at zero.
pub open spec fn sat_sub(x: u8, level: u8) -> u8 {
    if x >= level { (x - level) as u8 } else { 0 }
}

pub open spec fn dimmed(p: Pixel, level: u8) -> Pixel {
    Pixel { r: sat_sub(p.r, level), g: sat_sub(p.g, level), b: sat_sub(p.b, level) }
}

/// Every pixel of `s` dimmed by `level`.
pub open spec fn attenuated(s: Seq<Pixel>, level: u8) -> Seq<Pixel> {
    s.map_values(|p: Pixel| dimmed(p, level))
}

/// Lowers each channel of every pixel by `level`, stopping at zero.
pub fn brightness(data: &mut [Pixel; NUM_LEDS], level: u8)
    ensures
        final(data)@ == attenuated(old(data)@, level),
{
    let mut i: usize = 0;
    while i < NUM_LEDS
        invariant
            i <= NUM_LEDS,
            data@.len() == NUM_LEDS,
            old(data)@.len() == NUM_LEDS,
            forall|j: int| 0 <= j < i ==> data@[j] == dimmed(old(data)@[j], level),
            forall|j: int| i <= j < NUM_LEDS ==> data@[j] == old(data)@[j],
        decreases NUM_LEDS - i,
    {
        let p = data[i];
        data[i] = Pixel { r: p.r.saturating_sub(level), g: p.g.saturating_sub(level), b: p.b.saturating_sub(level) };
        i += 1;
    }
    assert(data@ =~= attenuated(old(data)@, level));
}

/// Colour at position `pos` of a wheel that fades red to green to blue and back to red.
pub open spec fn wheel_colour(pos: u8) -> Pixel {
    let w = 255 - pos;
    if w < 85 {
        Pixel { r: (255 - w * 3) as u8, g: 0, b: (w * 3) as u8 }
    } else if w < 170 {
        Pixel { r: 0, g: ((w - 85) * 3) as u8, b: (255 - (w - 85) * 3) as u8 }
    } else {
        Pixel { r: ((w - 170) * 3) as u8, g: (255 - (w - 170) * 3) as u8, b: 0 }
    }
}

/// Maps a value 0 to 255 onto the colour wheel.
pub fn _wheel(wheel_pos: u8) -> (p: Pixel)
    ensures
        p == wheel_colour(wheel_pos),
{
    let mut pos: u8 = 255 - wheel_pos;
    if pos < 85 {
        return Pixel { r: 255 - pos * 3, g: 0, b: pos * 3 };
    }
    if pos < 170 {
        pos -= 85;
        return Pixel { r: 0, g: pos * 3, b: 255 - pos * 3 };
    }
    pos -= 170;
    Pixel { r: pos * 3, g: 255 - pos * 3, b: 0 }
}

/// Dimming by `l1` and then by `l2` is dimming once by `l1 + l2`; a channel
/// that is already dark stays dark whatever the level.
pub proof fn lemma_attenuate_twice(s: Seq<Pixel>, l1: u8, l2: u8)
    requires
        l1 + l2 <= 255,
    ensures
        attenuated(attenuated(s, l1), l2) == attenuated(s, (l1 + l2) as u8),
        forall|i: int, l: u8| 0 <= i < s.len() && s[i] == black() ==> #[trigger] attenuated(s, l)[i] == black(),
{
    assert(attenuated(attenuated(s, l1), l2) =~= attenuated(s, (l1 + l2) as u8));
}

} // verus!
