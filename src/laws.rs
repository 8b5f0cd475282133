//! Properties that relate several operations of the library.
use vstd::prelude::*;

use crate::bayer::{cfa_channel, CfaLayout};
use crate::buffer::PixelBuffer;
use crate::codec::{decode_error, decodes_to, encode_overflows, pixel_values, wire_bytes, wire_word};
use crate::pixel::Pixel;

verus! {

/// Decoding what encoding wrote gives back the same size and every element:
/// the bytes decode without error, and any buffer they decode to equals `b`
/// cell for cell. (A buffer that encoding refuses has no bytes to decode.)
pub proof fn lemma_round_trip<T: Pixel>(b: PixelBuffer<T>)
    requires
        b.wf(),
        !encode_overflows(b),
    ensures
        decode_error::<T>(wire_bytes(b.spec_width(), b.spec_height(), pixel_values(b))) is None,
        forall|c: PixelBuffer<T>|
            decodes_to(wire_bytes(b.spec_width(), b.spec_height(), pixel_values(b)), c) ==> {
                &&& c.spec_width() == b.spec_width()
                &&& c.spec_height() == b.spec_height()
                &&& c.cells() == b.cells()
            },
{
    let w = b.spec_width();
    let h = b.spec_height();
    let vals = pixel_values(b);
    let s = wire_bytes(w, h, vals);
    assert(s.len() == 4 + 2 * (w * h));
    assert(s[0] == (w % 256) as u8 && s[1] == (w / 256) as u8);
    assert(s[2] == (h % 256) as u8 && s[3] == (h / 256) as u8);
    assert forall|k: int| 0 <= k < w * h implies #[trigger] wire_word(s, k) == b.cells()[k].value() by {
        assert((4 + 2 * k - 4) / 2 == k);
        assert((5 + 2 * k - 4) / 2 == k);
        assert(s[4 + 2 * k] == (vals[k] % 256) as u8);
        assert(s[5 + 2 * k] == (vals[k] / 256) as u8);
        assert(b.cells()[k].value() <= u16::MAX);
    }
    assert forall|k: int| 0 <= k < w * h implies T::fits(#[trigger] wire_word(s, k)) by {
        T::lemma_value(b.cells()[k], b.cells()[k]);
    }
    assert forall|c: PixelBuffer<T>| decodes_to(s, c) implies {
        &&& c.spec_width() == w
        &&& c.spec_height() == h
        &&& c.cells() == b.cells()
    } by {
        assert forall|k: int| 0 <= k < c.cells().len() implies #[trigger] c.cells()[k] == b.cells()[k] by {
            T::lemma_value(c.cells()[k], b.cells()[k]);
        }
        assert(c.cells() =~= b.cells());
    }
}

/// A write through the handle that `pix(x, y)` returns is seen at `(x, y)`
/// and nowhere else: `after` is the buffer once `v` was written there.
pub proof fn lemma_pix_write_isolated<T: Pixel>(before: PixelBuffer<T>, after: PixelBuffer<T>, x: int, y: int, v: T)
    requires
        before.wf(),
        before.in_bounds(x, y),
        after.spec_width() == before.spec_width(),
        after.spec_height() == before.spec_height(),
        after.cells() == before.cells().update(y * before.spec_width() + x, v),
    ensures
        after.wf(),
        after.at(x, y) == v,
        forall|xx: int, yy: int|
            before.in_bounds(xx, yy) && (xx != x || yy != y) ==> #[trigger] after.at(xx, yy) == before.at(
                xx,
                yy,
            ),
{
    let w = before.spec_width() as int;
    let h = before.spec_height() as int;
    crate::buffer::lemma_cell_index(w, h, x, y);
    assert forall|xx: int, yy: int|
        before.in_bounds(xx, yy) && (xx != x || yy != y) implies #[trigger] after.at(xx, yy) == before.at(
        xx,
        yy,
    ) by {
        crate::buffer::lemma_cell_index(w, h, xx, yy);
        if yy == y {
            assert(yy * w + xx != y * w + x);
        } else if yy < y {
            assert(yy * w + xx < y * w + x) by (nonlinear_arith)
                requires
                    yy < y,
                    0 <= xx < w,
                    0 <= x,
            ;
        } else {
            assert(yy * w + xx > y * w + x) by (nonlinear_arith)
                requires
                    yy > y,
                    0 <= x < w,
                    0 <= xx,
            ;
        }
    }
}

/// The filter pattern repeats every two columns and every two rows.
pub proof fn lemma_cfa_tiles(layout: CfaLayout, x: nat, y: nat, i: nat, j: nat)
    ensures
        cfa_channel(layout, x + 2 * i, y + 2 * j) == cfa_channel(layout, x, y),
{
    assert((x + 2 * i) % 2 == x % 2);
    assert((y + 2 * j) % 2 == y % 2);
}

/// The parity rule and the quadrant rule assign the same colour at every
/// coordinate.
pub proof fn lemma_layouts_agree(x: nat, y: nat)
    ensures
        cfa_channel(CfaLayout::ByParity, x, y) == cfa_channel(CfaLayout::ByQuadrant, x, y),
{
}

} // verus!
