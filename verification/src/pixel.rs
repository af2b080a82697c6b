//! A two-dimensional ARGB raster with an explicit row stride.
//!
//! Every pixel occupies four bytes. Within a pixel the bytes are blue,
//! green, red and alpha, in that order, so alpha sits at offset 3. Rows are
//! `stride` bytes apart; bytes between the end of a row's pixels and the
//! next row are padding and are never interpreted.

use vstd::prelude::*;
use crate::error::ZoneError;

verus! {

/// Bytes per pixel.
pub const BYTES_PER_PIXEL: usize = 4;

/// Offset of the blue byte within a pixel.
pub const BLUE: usize = 0;

/// Offset of the green byte within a pixel.
pub const GREEN: usize = 1;

/// Offset of the red byte within a pixel.
pub const RED: usize = 2;

/// Offset of the alpha byte within a pixel.
pub const ALPHA: usize = 3;

/// One pixel, channel by channel.
#[derive(Clone, Copy, Debug, PartialEq, Eq, Structural)]
pub struct Argb {
    pub alpha: u8,
    pub red: u8,
    pub green: u8,
    pub blue: u8,
}

/// The mathematical content of a [`PixelBuffer`].
pub struct Raster {
    pub width: nat,
    pub height: nat,
    pub stride: nat,
    pub bytes: Seq<u8>,
}

impl Raster {
    /// At least one pixel, rows that hold all their pixels, and exactly
    /// `height` rows of bytes.
    pub open spec fn wf(self) -> bool {
        &&& self.width >= 1
        &&& self.height >= 1
        &&& self.stride >= 4 * self.width
        &&& self.bytes.len() == self.stride * self.height
    }

    /// Whether `(x, y)` names a pixel of the raster.
    pub open spec fn contains(self, x: int, y: int) -> bool {
        0 <= x < self.width && 0 <= y < self.height
    }

    /// Index of channel `c` of pixel `(x, y)` in `bytes`.
    pub open spec fn offset(self, x: int, y: int, c: int) -> int {
        y * self.stride + 4 * x + c
    }

    /// Channel `c` of pixel `(x, y)`.
    pub open spec fn sample(self, x: int, y: int, c: int) -> u8 {
        self.bytes[self.offset(x, y, c)]
    }

    /// Alpha of pixel `(x, y)`.
    pub open spec fn alpha(self, x: int, y: int) -> u8 {
        self.sample(x, y, ALPHA as int)
    }

    /// Pixel `(x, y)` with its four channels.
    pub open spec fn pixel(self, x: int, y: int) -> Argb {
        Argb {
            alpha: self.sample(x, y, ALPHA as int),
            red: self.sample(x, y, RED as int),
            green: self.sample(x, y, GREEN as int),
            blue: self.sample(x, y, BLUE as int),
        }
    }

    /// The raster with `pixel` at `(x, y)` and every other byte as it is.
    pub open spec fn with_pixel(self, x: int, y: int, pixel: Argb) -> Raster {
        Raster {
            bytes: self.bytes.update(self.offset(x, y, BLUE as int), pixel.blue).update(
                self.offset(x, y, GREEN as int),
                pixel.green,
            ).update(self.offset(x, y, RED as int), pixel.red).update(
                self.offset(x, y, ALPHA as int),
                pixel.alpha,
            ),
            ..self
        }
    }

    /// The raster seen in a mirror: each row reads from right to left.
    /// Padding stays where it is.
    pub open spec fn mirrored(self) -> Raster {
        Raster {
            bytes: Seq::new(
                self.bytes.len(),
                |i: int|
                    {
                        let y = i / (self.stride as int);
                        let within = i % (self.stride as int);
                        if within < 4 * self.width {
                            self.sample(self.width - 1 - within / 4, y, within % 4)
                        } else {
                            self.bytes[i]
                        }
                    },
            ),
            ..self
        }
    }

    /// Same width and height; strides may differ.
    pub open spec fn same_size(self, other: Raster) -> bool {
        self.width == other.width && self.height == other.height
    }

    /// The raster of `width` by `height` pixels without padding whose byte
    /// for channel `c` of pixel `(x, y)` is `f(x, y, c)`.
    pub open spec fn tight(width: nat, height: nat, f: spec_fn(int, int, int) -> u8) -> Raster {
        Raster {
            width,
            height,
            stride: 4 * width,
            bytes: Seq::new(
                4 * width * height,
                |i: int|
                    f(
                        (i % (4 * width as int)) / 4,
                        i / (4 * width as int),
                        (i % (4 * width as int)) % 4,
                    ),
            ),
        }
    }
}

/// Every channel of every pixel lies inside the byte sequence, within the
/// bytes of its own row.
pub proof fn lemma_offset_in_bounds(r: Raster, x: int, y: int, c: int)
    requires
        r.wf(),
        r.contains(x, y),
        0 <= c < 4,
    ensures
        0 <= r.offset(x, y, c) < r.bytes.len(),
        y * r.stride <= r.offset(x, y, c) < (y + 1) * r.stride,
{
    let s = r.stride as int;
    let h = r.height as int;
    assert(y * s >= 0) by (nonlinear_arith)
        requires
            y >= 0,
            s >= 0,
    ;
    assert((y + 1) * s <= h * s) by (nonlinear_arith)
        requires
            0 <= y < h,
            s >= 0,
    ;
    assert((y + 1) * s == y * s + s) by (nonlinear_arith);
}

/// Splits a byte index into its row and its position within the row.
pub proof fn lemma_row_of_byte(r: Raster, i: int)
    requires
        r.wf(),
        0 <= i < r.bytes.len(),
    ensures
        0 <= i / (r.stride as int) < r.height,
        0 <= i % (r.stride as int) < r.stride,
        i == r.offset((i % (r.stride as int)) / 4, i / (r.stride as int), (i % (r.stride as int)) % 4),
        i % (r.stride as int) < 4 * r.width ==> r.contains(
            (i % (r.stride as int)) / 4,
            i / (r.stride as int),
        ),
{
    let s = r.stride as int;
    let h = r.height as int;
    vstd::arithmetic::div_mod::lemma_fundamental_div_mod(i, s);
    vstd::arithmetic::div_mod::lemma_div_pos_is_pos(i, s);
    assert(i / s < h) by {
        vstd::arithmetic::div_mod::lemma_multiply_divide_lt(i, s, h);
    }
    assert(s * (i / s) == (i / s) * s) by (nonlinear_arith);
}

/// In the mirrored raster the pixel at `x` is the pixel that was as far from
/// the right edge as `x` is from the left.
pub proof fn lemma_mirrored_sample(r: Raster, x: int, y: int, c: int)
    requires
        r.wf(),
        r.contains(x, y),
        0 <= c < 4,
    ensures
        r.mirrored().wf(),
        r.mirrored().same_size(r),
        r.mirrored().sample(x, y, c) == r.sample(r.width - 1 - x, y, c),
{
    let s = r.stride as int;
    let i = r.offset(x, y, c);
    lemma_offset_in_bounds(r, x, y, c);
    vstd::arithmetic::div_mod::lemma_fundamental_div_mod_converse(i, s, y, 4 * x + c);
}

/// Writing a pixel makes it read back and moves no other pixel.
pub proof fn lemma_with_pixel(r: Raster, x: int, y: int, pixel: Argb, u: int, v: int)
    requires
        r.wf(),
        r.contains(x, y),
        r.contains(u, v),
    ensures
        r.with_pixel(x, y, pixel).wf(),
        r.with_pixel(x, y, pixel).pixel(u, v) == if u == x && v == y {
            pixel
        } else {
            r.pixel(u, v)
        },
{
    lemma_offset_in_bounds(r, x, y, 0);
    lemma_offset_in_bounds(r, x, y, 3);
    lemma_offset_in_bounds(r, u, v, 0);
    lemma_offset_in_bounds(r, u, v, 3);
    let s = r.stride as int;
    if v < y {
        assert((v + 1) * s <= y * s) by (nonlinear_arith)
            requires
                v + 1 <= y,
                s >= 0,
        ;
    } else if v > y {
        assert((y + 1) * s <= v * s) by (nonlinear_arith)
            requires
                y + 1 <= v,
                s >= 0,
        ;
    }
}

/// A tight raster stores channel `c` of pixel `(x, y)` where `f` says.
pub proof fn lemma_tight_sample(
    width: nat,
    height: nat,
    f: spec_fn(int, int, int) -> u8,
    x: int,
    y: int,
    c: int,
)
    requires
        width >= 1,
        height >= 1,
        0 <= x < width,
        0 <= y < height,
        0 <= c < 4,
    ensures
        Raster::tight(width, height, f).wf(),
        Raster::tight(width, height, f).sample(x, y, c) == f(x, y, c),
{
    let r = Raster::tight(width, height, f);
    let row = 4 * width as int;
    assert(4 * width * height == r.stride * r.height) by (nonlinear_arith)
        requires
            r.stride == 4 * width,
            r.height == height,
    ;
    lemma_offset_in_bounds(r, x, y, c);
    let i = r.offset(x, y, c);
    assert(i / row == y && i % row == 4 * x + c) by {
        vstd::arithmetic::div_mod::lemma_fundamental_div_mod_converse(i, row, y, 4 * x + c);
    }
}

/// An ARGB raster that owns its bytes.
#[derive(Clone, Debug)]
pub struct PixelBuffer {
    width: usize,
    height: usize,
    stride: usize,
    data: Vec<u8>,
}

impl View for PixelBuffer {
    type V = Raster;

    closed spec fn view(&self) -> Raster {
        Raster {
            width: self.width as nat,
            height: self.height as nat,
            stride: self.stride as nat,
            bytes: self.data@,
        }
    }
}

impl PixelBuffer {
    /// The representation invariant: the view is a well-formed raster.
    pub open spec fn wf(&self) -> bool {
        self@.wf()
    }

    /// A fully transparent raster of `width` by `height` pixels without
    /// padding.
    ///
    /// Fails with `InvalidArgument` when either dimension is zero or the
    /// raster would not fit the address space.
    pub fn new(width: usize, height: usize) -> (result: Result<PixelBuffer, ZoneError>)
        ensures
            result is Ok <==> width >= 1 && height >= 1 && 4 * width * height <= usize::MAX,
            result matches Ok(buffer) ==> {
                &&& buffer.wf()
                &&& buffer@ == Raster::tight(width as nat, height as nat, |x: int, y: int, c: int| 0u8)
            },
            result matches Err(e) ==> e == ZoneError::InvalidArgument,
    {
        if width == 0 || height == 0 {
            return Err(ZoneError::InvalidArgument);
        }
        let stride = match width.checked_mul(BYTES_PER_PIXEL) {
            Some(stride) => stride,
            None => {
                assert(4 * width * height > usize::MAX) by (nonlinear_arith)
                    requires
                        4 * width > usize::MAX,
                        height >= 1,
                ;
                return Err(ZoneError::InvalidArgument);
            },
        };
        let len = match stride.checked_mul(height) {
            Some(len) => len,
            None => {
                assert(4 * width * height == stride * height) by (nonlinear_arith)
                    requires
                        stride == 4 * width,
                ;
                return Err(ZoneError::InvalidArgument);
            },
        };
        assert(4 * width * height == len) by (nonlinear_arith)
            requires
                stride == 4 * width,
                len == stride * height,
        ;
        let data = vec![0u8; len];
        let buffer = PixelBuffer { width, height, stride, data };
        assert(buffer@.bytes =~= Raster::tight(
            width as nat,
            height as nat,
            |x: int, y: int, c: int| 0u8,
        ).bytes);
        Ok(buffer)
    }

    /// Wraps bytes that are already laid out as a raster.
    ///
    /// Fails with `InvalidArgument` when either dimension is zero, and with
    /// `BufferBounds` when a row does not hold `width` pixels or `data` is
    /// not exactly `height` rows long.
    pub fn from_raw(width: usize, height: usize, stride: usize, data: Vec<u8>) -> (result: Result<
        PixelBuffer,
        ZoneError,
    >)
        ensures
            match result {
                Ok(buffer) => {
                    &&& buffer.wf()
                    &&& buffer@ == Raster {
                        width: width as nat,
                        height: height as nat,
                        stride: stride as nat,
                        bytes: data@,
                    }
                },
                Err(ZoneError::InvalidArgument) => width == 0 || height == 0,
                Err(ZoneError::BufferBounds) => {
                    &&& width >= 1
                    &&& height >= 1
                    &&& (stride < 4 * width || data@.len() != stride * height)
                },
            },
    {
        if width == 0 || height == 0 {
            return Err(ZoneError::InvalidArgument);
        }
        match width.checked_mul(BYTES_PER_PIXEL) {
            Some(row) => {
                if stride < row {
                    return Err(ZoneError::BufferBounds);
                }
            },
            None => {
                return Err(ZoneError::BufferBounds);
            },
        }
        match stride.checked_mul(height) {
            Some(len) => {
                if data.len() != len {
                    return Err(ZoneError::BufferBounds);
                }
            },
            None => {
                assert(data@.len() == data.len());
                return Err(ZoneError::BufferBounds);
            },
        }
        Ok(PixelBuffer { width, height, stride, data })
    }

    /// Width in pixels.
    pub fn width(&self) -> (w: usize)
        ensures
            w == self@.width,
    {
        self.width
    }

    /// Height in pixels.
    pub fn height(&self) -> (h: usize)
        ensures
            h == self@.height,
    {
        self.height
    }

    /// Distance in bytes between the starts of two consecutive rows.
    pub fn stride(&self) -> (s: usize)
        ensures
            s == self@.stride,
    {
        self.stride
    }

    /// The bytes, row after row.
    pub fn bytes(&self) -> (b: &Vec<u8>)
        ensures
            b@ == self@.bytes,
    {
        &self.data
    }

    /// Gives up the raster for its bytes.
    pub fn into_bytes(self) -> (b: Vec<u8>)
        ensures
            b@ == self@.bytes,
    {
        self.data
    }

    /// Wraps bytes laid out without padding.
    pub(crate) fn from_tight(width: usize, height: usize, data: Vec<u8>) -> (buffer: PixelBuffer)
        requires
            width >= 1,
            height >= 1,
            data@.len() == 4 * width * height,
        ensures
            buffer.wf(),
            buffer@ == (Raster {
                width: width as nat,
                height: height as nat,
                stride: 4 * width as nat,
                bytes: data@,
            }),
    {
        proof {
            assert(data@.len() == data.len());
            assert(4 * width <= 4 * width * height) by (nonlinear_arith)
                requires
                    width >= 1,
                    height >= 1,
            ;
        }
        PixelBuffer { width, height, stride: 4 * width, data }
    }

    /// Puts `data` in place of the bytes, keeping the geometry.
    pub(crate) fn replace_bytes(&mut self, data: Vec<u8>)
        requires
            data@.len() == old(self)@.bytes.len(),
        ensures
            final(self)@ == (Raster { bytes: data@, ..old(self)@ }),
    {
        self.data = data;
    }

    /// Channel `c` of pixel `(x, y)`.
    pub(crate) fn channel(&self, x: usize, y: usize, c: usize) -> (v: u8)
        requires
            self.wf(),
            self@.contains(x as int, y as int),
            c < 4,
        ensures
            v == self@.sample(x as int, y as int, c as int),
    {
        proof {
            lemma_offset_in_bounds(self@, x as int, y as int, c as int);
            assert(self.data@.len() == self.data.len());
            assert(0 <= y * self.stride) by (nonlinear_arith)
                requires
                    y >= 0,
                    self.stride >= 0,
            ;
        }
        self.data[y * self.stride + 4 * x + c]
    }

    /// The pixel at `(x, y)`, or `None` when the raster has no such pixel.
    pub fn pixel(&self, x: usize, y: usize) -> (p: Option<Argb>)
        requires
            self.wf(),
        ensures
            p == if self@.contains(x as int, y as int) {
                Some(self@.pixel(x as int, y as int))
            } else {
                None
            },
    {
        if x < self.width && y < self.height {
            Some(
                Argb {
                    alpha: self.channel(x, y, ALPHA),
                    red: self.channel(x, y, RED),
                    green: self.channel(x, y, GREEN),
                    blue: self.channel(x, y, BLUE),
                },
            )
        } else {
            None
        }
    }

    /// Writes `pixel` at `(x, y)` and leaves every other byte as it is.
    ///
    /// Fails with `BufferBounds`, writing nothing, when the raster has no
    /// such pixel.
    pub fn set_pixel(&mut self, x: usize, y: usize, pixel: Argb) -> (result: Result<(), ZoneError>)
        requires
            old(self).wf(),
        ensures
            final(self).wf(),
            result is Ok <==> old(self)@.contains(x as int, y as int),
            result is Err ==> result == Err::<(), ZoneError>(ZoneError::BufferBounds) && final(self)@
                == old(self)@,
            result is Ok ==> final(self)@ == old(self)@.with_pixel(x as int, y as int, pixel),
    {
        if x >= self.width || y >= self.height {
            return Err(ZoneError::BufferBounds);
        }
        proof {
            lemma_offset_in_bounds(self@, x as int, y as int, 0);
            assert(self.data@.len() == self.data.len());
            assert(0 <= y * self.stride) by (nonlinear_arith)
                requires
                    y >= 0,
                    self.stride >= 0,
            ;
            lemma_offset_in_bounds(self@, x as int, y as int, 3);
        }
        let base = y * self.stride + 4 * x;
        self.data.set(base + BLUE, pixel.blue);
        self.data.set(base + GREEN, pixel.green);
        self.data.set(base + RED, pixel.red);
        self.data.set(base + ALPHA, pixel.alpha);
        Ok(())
    }

    /// The alpha of the pixel at `(x, y)`, or `None` when the raster has no
    /// such pixel.
    pub fn alpha(&self, x: usize, y: usize) -> (a: Option<u8>)
        requires
            self.wf(),
        ensures
            a == if self@.contains(x as int, y as int) {
                Some(self@.alpha(x as int, y as int))
            } else {
                None
            },
    {
        if x < self.width && y < self.height {
            Some(self.channel(x, y, ALPHA))
        } else {
            None
        }
    }
}

} // verus!
