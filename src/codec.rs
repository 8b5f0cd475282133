//! The binary raw format: a little-endian 16-bit width and height, then
//! `height` rows of `width` little-endian 16-bit pixel values.
use vstd::prelude::*;

use crate::buffer::PixelBuffer;
use crate::error::RawError;
use crate::pixel::Pixel;

verus! {

/// The value of a little-endian 16-bit word.
pub open spec fn le16(lo: u8, hi: u8) -> nat {
    lo as nat + 256 * (hi as nat)
}

/// The width that the header of `s` declares.
pub open spec fn wire_width(s: Seq<u8>) -> nat {
    le16(s[0], s[1])
}

/// The height that the header of `s` declares.
pub open spec fn wire_height(s: Seq<u8>) -> nat {
    le16(s[2], s[3])
}

/// The `k`-th pixel word of the raster of `s`.
pub open spec fn wire_word(s: Seq<u8>, k: int) -> nat {
    le16(s[4 + 2 * k], s[5 + 2 * k])
}

/// Byte `i` of the encoding of a `w` by `h` image with pixel values `vals`.
pub open spec fn wire_byte(w: nat, h: nat, vals: Seq<nat>, i: int) -> u8 {
    let v = if i < 2 {
        w
    } else if i < 4 {
        h
    } else {
        vals[(i - 4) / 2]
    };
    if i % 2 == 0 {
        (v % 256) as u8
    } else {
        (v / 256) as u8
    }
}

/// The encoding of a `w` by `h` image with pixel values `vals`, row-major.
pub open spec fn wire_bytes(w: nat, h: nat, vals: Seq<nat>) -> Seq<u8> {
    Seq::new(4 + 2 * vals.len(), |i: int| wire_byte(w, h, vals, i))
}

/// The numeric values of a buffer's elements, row-major.
pub open spec fn pixel_values<T: Pixel>(b: PixelBuffer<T>) -> Seq<nat> {
    b.cells().map_values(|p: T| p.value())
}

/// Whether a buffer cannot be encoded: a dimension or an element above
/// the 16-bit range.
pub open spec fn encode_overflows<T: Pixel>(b: PixelBuffer<T>) -> bool {
    b.spec_width() > u16::MAX || b.spec_height() > u16::MAX || exists|i: int|
        0 <= i < b.cells().len() && (#[trigger] b.cells()[i]).value() > u16::MAX
}

/// The header is present, declares a non-empty image, and the raster it
/// declares is all there.
pub open spec fn wire_complete(s: Seq<u8>) -> bool {
    &&& s.len() >= 4
    &&& wire_width(s) > 0
    &&& wire_height(s) > 0
    &&& s.len() >= 4 + 2 * (wire_width(s) * wire_height(s))
}

/// Why `s` cannot be decoded into elements of type `T`, if it cannot.
pub open spec fn decode_error<T: Pixel>(s: Seq<u8>) -> Option<RawError> {
    if s.len() < 4 {
        Some(RawError::TruncatedStream)
    } else if wire_width(s) == 0 || wire_height(s) == 0 {
        Some(RawError::InvalidDimensions)
    } else if s.len() < 4 + 2 * (wire_width(s) * wire_height(s)) {
        Some(RawError::TruncatedStream)
    } else if exists|k: int|
        0 <= k < wire_width(s) * wire_height(s) && !T::fits(#[trigger] wire_word(s, k)) {
        Some(RawError::ConversionOverflow)
    } else {
        None
    }
}

/// `b` is what `s` decodes to: the header's size, and the raster's words as
/// its elements, row-major.
pub open spec fn decodes_to<T: Pixel>(s: Seq<u8>, b: PixelBuffer<T>) -> bool {
    &&& wire_complete(s)
    &&& b.wf()
    &&& b.spec_width() == wire_width(s)
    &&& b.spec_height() == wire_height(s)
    &&& forall|k: int| 0 <= k < b.cells().len() ==> (#[trigger] b.cells()[k]).value() == wire_word(s, k)
    &&& forall|x: int, y: int|
        b.in_bounds(x, y) ==> (#[trigger] b.at(x, y)).value() == wire_word(s, y * b.spec_width() + x)
}

/// Relies on byteorder's `LittleEndian::write_u16`: it stores the low byte
/// of `n`, then the high byte.
#[verifier::external_body]
fn le_bytes_of(n: u16) -> (r: (u8, u8))
    ensures
        r.0 as nat == n as nat % 256,
        r.1 as nat == n as nat / 256,
{
    let mut buf = [0u8; 2];
    <byteorder::LittleEndian as byteorder::ByteOrder>::write_u16(&mut buf, n);
    (buf[0], buf[1])
}

/// Relies on byteorder's `LittleEndian::read_u16`: the first byte is the
/// low one.
#[verifier::external_body]
fn le_word_of(lo: u8, hi: u8) -> (r: u16)
    ensures
        r as nat == le16(lo, hi),
{
    <byteorder::LittleEndian as byteorder::ByteOrder>::read_u16(&[lo, hi])
}

/// Appends the little-endian bytes of `n`.
fn push_word(out: &mut Vec<u8>, n: u16)
    ensures
        final(out)@ == old(out)@.push((n as nat % 256) as u8).push((n as nat / 256) as u8),
{
    let (lo, hi) = le_bytes_of(n);
    out.push(lo);
    out.push(hi);
}

impl<T: Pixel> PixelBuffer<T> {
    /// The binary encoding of the buffer; fails with `ConversionOverflow`
    /// where a dimension or an element does not fit in 16 bits.
    pub fn write_binimage(&self) -> (r: Result<Vec<u8>, RawError>)
        requires
            self.wf(),
        ensures
            r is Err <==> encode_overflows(*self),
            r is Err ==> r->Err_0 == RawError::ConversionOverflow,
            r matches Ok(bytes) ==> bytes@ == wire_bytes(
                self.spec_width(),
                self.spec_height(),
                pixel_values(*self),
            ),
    {
        let w: usize = self.width();
        let h: usize = self.height();
        if w > u16::MAX as usize || h > u16::MAX as usize {
            return Err(RawError::ConversionOverflow);
        }
        let cells: &Vec<T> = self.data();
        let ghost vals = pixel_values(*self);
        let ghost ws = self.spec_width();
        let ghost hs = self.spec_height();
        let mut out: Vec<u8> = Vec::new();
        push_word(&mut out, w as u16);
        push_word(&mut out, h as u16);
        let mut i: usize = 0;
        while i < cells.len()
            invariant
                cells@ == self.cells(),
                vals == pixel_values(*self),
                ws == self.spec_width(),
                hs == self.spec_height(),
                ws == w,
                hs == h,
                i <= cells@.len(),
                out@.len() == 4 + 2 * i,
                forall|j: int| 0 <= j < out@.len() ==> #[trigger] out@[j] == wire_byte(ws, hs, vals, j),
                forall|k: int| 0 <= k < i ==> (#[trigger] cells@[k]).value() <= u16::MAX,
            decreases cells@.len() - i,
        {
            match cells[i].to_u16() {
                Some(v) => {
                    let ghost before = out@;
                    push_word(&mut out, v);
                    proof {
                        assert forall|j: int| 0 <= j < out@.len() implies #[trigger] out@[j]
                            == wire_byte(ws, hs, vals, j) by {
                            if j < before.len() {
                                assert(out@[j] == before[j]);
                            } else {
                                assert((j - 4) / 2 == i);
                            }
                        }
                    }
                },
                None => {
                    return Err(RawError::ConversionOverflow);
                },
            }
            i = i + 1;
        }
        assert(out@ =~= wire_bytes(ws, hs, vals));
        Ok(out)
    }
}

impl<T: Pixel> PixelBuffer<T> {
    /// The buffer that `bytes` encodes, or why there is none: a short
    /// header or raster, a zero dimension, or a word that `T` cannot hold.
    /// Bytes past the raster are not read.
    pub fn new_from_binimage(bytes: &[u8]) -> (r: Result<Self, RawError>)
        ensures
            r is Err <==> decode_error::<T>(bytes@) is Some,
            r is Err ==> decode_error::<T>(bytes@) == Some(r->Err_0),
            r matches Ok(b) ==> decodes_to(bytes@, b),
    {
        let len: usize = bytes.len();
        if len < 4 {
            return Err(RawError::TruncatedStream);
        }
        let w: u16 = le_word_of(bytes[0], bytes[1]);
        let h: u16 = le_word_of(bytes[2], bytes[3]);
        if w == 0 || h == 0 {
            return Err(RawError::InvalidDimensions);
        }
        assert((w as u64) * (h as u64) <= 65535 * 65535) by (nonlinear_arith)
            requires
                w <= 65535,
                h <= 65535,
        ;
        let n64: u64 = (w as u64) * (h as u64);
        if (len as u64) < 4 + 2 * n64 {
            return Err(RawError::TruncatedStream);
        }
        let n: usize = n64 as usize;
        let mut cells: Vec<T> = Vec::new();
        let mut k: usize = 0;
        while k < n
            invariant
                k <= n,
                len == bytes@.len(),
                n == wire_width(bytes@) * wire_height(bytes@),
                bytes@.len() >= 4 + 2 * n,
                cells@.len() == k,
                forall|j: int| 0 <= j < k ==> (#[trigger] cells@[j]).value() == wire_word(bytes@, j),
                forall|j: int| 0 <= j < k ==> T::fits(#[trigger] wire_word(bytes@, j)),
            decreases n - k,
        {
            let v: u16 = le_word_of(bytes[4 + 2 * k], bytes[5 + 2 * k]);
            match T::from_u16(v) {
                Some(p) => {
                    cells.push(p);
                },
                None => {
                    assert(!T::fits(wire_word(bytes@, k as int)));
                    assert(exists|j: int|
                        0 <= j < wire_width(bytes@) * wire_height(bytes@) && !T::fits(
                            #[trigger] wire_word(bytes@, j),
                        ));
                    return Err(RawError::ConversionOverflow);
                },
            }
            k = k + 1;
        }
        let r = Self::from_shape_vec(w as usize, h as usize, cells);
        assert(r is Ok);
        proof {
            let b = r->Ok_0;
            assert forall|x: int, y: int| b.in_bounds(x, y) implies (#[trigger] b.at(x, y)).value()
                == wire_word(bytes@, y * b.spec_width() + x) by {
                crate::buffer::lemma_cell_index(w as int, h as int, x, y);
            }
        }
        r
    }

    /// Replaces the buffer by the one that `bytes` encodes; on failure the
    /// buffer is left as it was.
    pub fn read_binimage(&mut self, bytes: &[u8]) -> (r: Result<(), RawError>)
        ensures
            r is Err <==> decode_error::<T>(bytes@) is Some,
            r is Err ==> decode_error::<T>(bytes@) == Some(r->Err_0),
            r is Err ==> *final(self) == *old(self),
            r is Ok ==> decodes_to(bytes@, *final(self)),
    {
        match Self::new_from_binimage(bytes) {
            Ok(b) => {
                *self = b;
                Ok(())
            },
            Err(e) => Err(e),
        }
    }
}

} // verus!
