//! Bayer sampling: the single channel a colour-filtered sensor records at
//! each photosite, taken from an RGB image.
use vstd::prelude::*;

use crate::buffer::{lemma_cell_index, PixelBuffer};
use crate::error::RawError;
use crate::pixel::Pixel;

verus! {

/// The colour of the filter over one photosite.
#[derive(Debug, Clone, Copy, PartialEq, Eq, Structural)]
pub enum Channel {
    Red,
    Green,
    Blue,
}

/// How the 2x2 Bayer tile is assigned to coordinates.
#[derive(Debug, Clone, Copy, PartialEq, Eq, Structural)]
pub enum CfaLayout {
    /// Green where the parities of `x` and `y` differ; otherwise red on even
    /// `x`, blue on odd `x`.
    ByParity,
    /// By `(y mod 2, x mod 2)`: red at (even, even), green at (even, odd) and
    /// (odd, even), blue at (odd, odd).
    ByQuadrant,
}

impl Default for CfaLayout {
    /// The parity rule.
    fn default() -> (r: Self)
        ensures
            r == CfaLayout::ByParity,
    {
        CfaLayout::ByParity
    }
}

/// The filter colour at `(x, y)` under `layout`.
pub open spec fn cfa_channel(layout: CfaLayout, x: nat, y: nat) -> Channel {
    match layout {
        CfaLayout::ByParity => {
            if x % 2 != y % 2 {
                Channel::Green
            } else if x % 2 == 0 {
                Channel::Red
            } else {
                Channel::Blue
            }
        },
        CfaLayout::ByQuadrant => {
            if y % 2 == 0 {
                if x % 2 == 0 {
                    Channel::Red
                } else {
                    Channel::Green
                }
            } else {
                if x % 2 == 0 {
                    Channel::Green
                } else {
                    Channel::Blue
                }
            }
        },
    }
}

/// The component of an `(r, g, b)` triple that a filter lets through.
pub open spec fn channel_value(rgb: (u8, u8, u8), c: Channel) -> u8 {
    match c {
        Channel::Red => rgb.0,
        Channel::Green => rgb.1,
        Channel::Blue => rgb.2,
    }
}

/// An RGB image held as plain values: one `(r, g, b)` triple per pixel,
/// row by row.
pub struct RgbFrame {
    pub width: usize,
    pub height: usize,
    pub pixels: Vec<(u8, u8, u8)>,
}

impl RgbFrame {
    /// One triple per coordinate.
    pub open spec fn wf(&self) -> bool {
        self.pixels@.len() == self.width * self.height
    }

    /// The triple at column `x`, row `y`.
    pub open spec fn rgb_at(&self, x: int, y: int) -> (u8, u8, u8) {
        self.pixels@[y * self.width + x]
    }

    /// A frame over triples laid out row by row; a length other than
    /// `width * height` is refused.
    pub fn new(width: usize, height: usize, pixels: Vec<(u8, u8, u8)>) -> (r: Result<Self, RawError>)
        ensures
            r is Err <==> pixels@.len() != width * height,
            r is Err ==> r->Err_0 == RawError::InvalidDimensions,
            r matches Ok(f) ==> f.wf() && f.width == width && f.height == height && f.pixels@ == pixels@,
    {
        let len: usize = pixels.len();
        match width.checked_mul(height) {
            Some(n) => {
                if len != n {
                    return Err(RawError::InvalidDimensions);
                }
            },
            None => {
                return Err(RawError::InvalidDimensions);
            },
        }
        Ok(RgbFrame { width, height, pixels })
    }
}

/// The value a sensor with `layout` records at `(x, y)` of `frame`.
pub open spec fn bayer_sample(frame: &RgbFrame, layout: CfaLayout, x: int, y: int) -> u8 {
    channel_value(frame.rgb_at(x, y), cfa_channel(layout, x as nat, y as nat))
}

/// The filter colour at `(x, y)` under `layout`.
pub fn channel_at(layout: CfaLayout, x: usize, y: usize) -> (r: Channel)
    ensures
        r == cfa_channel(layout, x as nat, y as nat),
{
    match layout {
        CfaLayout::ByParity => {
            if x % 2 != y % 2 {
                Channel::Green
            } else if x % 2 == 0 {
                Channel::Red
            } else {
                Channel::Blue
            }
        },
        CfaLayout::ByQuadrant => {
            if y % 2 == 0 {
                if x % 2 == 0 {
                    Channel::Red
                } else {
                    Channel::Green
                }
            } else {
                if x % 2 == 0 {
                    Channel::Green
                } else {
                    Channel::Blue
                }
            }
        },
    }
}

/// The value a sensor with `layout` records at `(x, y)` of `frame`.
pub fn convert_rgb_to_bayer(frame: &RgbFrame, layout: CfaLayout, x: usize, y: usize) -> (r: u8)
    requires
        frame.wf(),
        x < frame.width,
        y < frame.height,
    ensures
        r == bayer_sample(frame, layout, x as int, y as int),
{
    let n: usize = frame.pixels.len();
    proof {
        lemma_cell_index(frame.width as int, frame.height as int, x as int, y as int);
    }
    let rgb: (u8, u8, u8) = frame.pixels[y * frame.width + x];
    match channel_at(layout, x, y) {
        Channel::Red => rgb.0,
        Channel::Green => rgb.1,
        Channel::Blue => rgb.2,
    }
}

impl<T: Pixel> PixelBuffer<T> {
    /// A raw image sampled from `frame` through the filter `layout`, one
    /// channel per pixel. Fails on an empty frame, or where `T` cannot hold
    /// a sampled value.
    pub fn new_from_rgbimage(frame: &RgbFrame, layout: CfaLayout) -> (r: Result<Self, RawError>)
        requires
            frame.wf(),
        ensures
            r is Err <==> (frame.width == 0 || frame.height == 0 || exists|x: int, y: int|
                0 <= x < frame.width && 0 <= y < frame.height && !T::fits(
                    #[trigger] bayer_sample(frame, layout, x, y) as nat,
                )),
            r is Err ==> r->Err_0 == (if frame.width == 0 || frame.height == 0 {
                RawError::InvalidDimensions
            } else {
                RawError::ConversionOverflow
            }),
            r matches Ok(b) ==> {
                &&& b.wf()
                &&& b.spec_width() == frame.width
                &&& b.spec_height() == frame.height
                &&& forall|x: int, y: int|
                    b.in_bounds(x, y) ==> (#[trigger] b.at(x, y)).value() == bayer_sample(
                        frame,
                        layout,
                        x,
                        y,
                    ) as nat
            },
    {
        let width: usize = frame.width;
        let height: usize = frame.height;
        if width == 0 || height == 0 {
            return Err(RawError::InvalidDimensions);
        }
        let mut cells: Vec<T> = Vec::new();
        let mut y: usize = 0;
        while y < height
            invariant
                frame.wf(),
                width == frame.width,
                height == frame.height,
                width > 0,
                y <= height,
                cells@.len() == y * width,
                forall|yy: int, xx: int|
                    0 <= yy < y && 0 <= xx < width ==> (#[trigger] cells@[yy * width + xx]).value()
                        == bayer_sample(frame, layout, xx, yy) as nat,
            decreases height - y,
        {
            let mut x: usize = 0;
            while x < width
                invariant
                    frame.wf(),
                    width == frame.width,
                    height == frame.height,
                    x <= width,
                    y < height,
                    cells@.len() == y * width + x,
                    forall|yy: int, xx: int|
                        0 <= yy < y && 0 <= xx < width ==> (#[trigger] cells@[yy * width + xx]).value()
                            == bayer_sample(frame, layout, xx, yy) as nat,
                    forall|xx: int|
                        0 <= xx < x ==> (#[trigger] cells@[y * width + xx]).value() == bayer_sample(
                            frame,
                            layout,
                            xx,
                            y as int,
                        ) as nat,
                decreases width - x,
            {
                let v: u8 = convert_rgb_to_bayer(frame, layout, x, y);
                match T::from_u8(v) {
                    Some(p) => {
                        let ghost before = cells@;
                        cells.push(p);
                        proof {
                            assert forall|yy: int, xx: int|
                                0 <= yy < y && 0 <= xx < width implies (#[trigger] cells@[yy * width
                                + xx]).value() == bayer_sample(frame, layout, xx, yy) as nat by {
                                lemma_cell_index(width as int, y as int, xx, yy);
                                assert(cells@[yy * width + xx] == before[yy * width + xx]);
                            }
                            assert forall|xx: int| 0 <= xx < x + 1 implies (#[trigger] cells@[y
                                * width + xx]).value() == bayer_sample(
                                frame,
                                layout,
                                xx,
                                y as int,
                            ) as nat by {
                                if xx < x {
                                    assert(cells@[y * width + xx] == before[y * width + xx]);
                                }
                            }
                        }
                    },
                    None => {
                        return Err(RawError::ConversionOverflow);
                    },
                }
                x = x + 1;
            }
            proof {
                assert forall|yy: int, xx: int|
                    0 <= yy < y + 1 && 0 <= xx < width implies (#[trigger] cells@[yy * width
                    + xx]).value() == bayer_sample(frame, layout, xx, yy) as nat by {
                    lemma_cell_index(width as int, (y + 1) as int, xx, yy);
                }
                assert((y + 1) * width == y * width + width) by (nonlinear_arith);
            }
            y = y + 1;
        }
        let ghost flat = cells@;
        let r = Self::from_shape_vec(width, height, cells);
        assert(height * width == width * height) by (nonlinear_arith);
        assert(r is Ok);
        proof {
            let b = r->Ok_0;
            assert forall|x: int, y: int| b.in_bounds(x, y) implies (#[trigger] b.at(
                x,
                y,
            )).value() == bayer_sample(frame, layout, x, y) as nat by {
                lemma_cell_index(width as int, height as int, x, y);
                assert(b.at(x, y) == flat[y * width + x]);
            }
            assert forall|x: int, y: int|
                0 <= x < frame.width && 0 <= y < frame.height implies T::fits(
                #[trigger] bayer_sample(frame, layout, x, y) as nat,
            ) by {
                assert(b.in_bounds(x, y));
                T::lemma_value(b.at(x, y), b.at(x, y));
            }
        }
        r
    }
}

} // verus!
