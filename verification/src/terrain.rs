//! Colour bands for drawing a normalised field as terrain.
//!
//! Which band a height falls in is the caller's comparison. The bands'
//! colours, and how a colour is made lighter or darker, are fixed here.

use vstd::prelude::*;

verus! {

/// The bands of terrain, from the lowest heights to the highest.
#[derive(Clone, Copy, Debug, PartialEq, Eq)]
pub enum Band {
    /// Open water.
    Water,
    /// Sand along the water.
    Shore,
    /// Grassland.
    Grass,
    /// Forest.
    Forest,
    /// Bare rock.
    Rock,
    /// Loose stone below the snow line.
    Scree,
    /// Snow.
    Snow,
}

/// A colour channel moved by `delta` and held within the channel's range.
pub open spec fn shifted(shade: u8, delta: i32) -> u8 {
    if shade + delta < 0 {
        0u8
    } else if shade + delta > 255 {
        255u8
    } else {
        (shade + delta) as u8
    }
}

/// Moves a colour channel by `delta`, stopping at black and at full
/// brightness.
pub fn shift_shade(shade: u8, delta: i32) -> (moved: u8)
    ensures
        moved == shifted(shade, delta),
{
    let sum: i64 = shade as i64 + delta as i64;
    if sum < 0 {
        0
    } else if sum > 255 {
        255
    } else {
        sum as u8
    }
}

impl Band {
    /// The band's colour as red, green and blue.
    pub open spec fn palette(self) -> Seq<u8> {
        match self {
            Band::Water => seq![20u8, 20u8, 200u8],
            Band::Shore => seq![200u8, 200u8, 100u8],
            Band::Grass => seq![20u8, 200u8, 20u8],
            Band::Forest => seq![20u8, 150u8, 20u8],
            Band::Rock => seq![90u8, 90u8, 90u8],
            Band::Scree => seq![120u8, 120u8, 100u8],
            Band::Snow => seq![200u8, 200u8, 200u8],
        }
    }

    /// The band's colour as red, green and blue.
    pub fn color(self) -> (rgb: [u8; 3])
        ensures
            rgb@ == self.palette(),
    {
        let rgb: [u8; 3] = match self {
            Band::Water => [20, 20, 200],
            Band::Shore => [200, 200, 100],
            Band::Grass => [20, 200, 20],
            Band::Forest => [20, 150, 20],
            Band::Rock => [90, 90, 90],
            Band::Scree => [120, 120, 100],
            Band::Snow => [200, 200, 200],
        };
        assert(rgb@ =~= self.palette());
        rgb
    }

    /// The band's colour with every channel moved by `delta`.
    pub fn shaded(self, delta: i32) -> (rgb: [u8; 3])
        ensures
            rgb@ == self.palette().map_values(|shade: u8| shifted(shade, delta)),
    {
        let plain: [u8; 3] = self.color();
        let rgb: [u8; 3] = [
            shift_shade(plain[0], delta),
            shift_shade(plain[1], delta),
            shift_shade(plain[2], delta),
        ];
        assert(rgb@ =~= self.palette().map_values(|shade: u8| shifted(shade, delta)));
        rgb
    }
}

} // verus!
