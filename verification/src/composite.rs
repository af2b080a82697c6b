//! Filling and compositing of premultiplied ARGB rasters, pixel by pixel.
//!
//! Colour channels are stored multiplied by alpha. Products of two bytes
//! that stand for fractions of 255 are rounded to the nearest byte.

use vstd::prelude::*;
use crate::error::ZoneError;
use crate::pixel::{
    lemma_row_of_byte, lemma_tight_sample, PixelBuffer, Raster, ALPHA, GREEN, RED,
};

verus! {

/// A colour with straight channels: 255 is full intensity, and full
/// opacity for alpha.
#[derive(Clone, Copy, Debug, PartialEq, Eq, Structural)]
pub struct Color {
    pub red: u8,
    pub green: u8,
    pub blue: u8,
    pub alpha: u8,
}

/// How a source raster is combined with what is already there.
#[derive(Clone, Copy, Debug, PartialEq, Eq, Structural)]
pub enum Operator {
    /// The source lies on top; the destination shows through where the
    /// source is transparent.
    Over,
    /// The source is kept only where the destination is transparent; the
    /// destination itself is dropped.
    Out,
}

/// `a * b / 255`, rounded to the nearest whole number.
pub open spec fn scaled(a: int, b: int) -> int {
    (a * b + 127) / 255
}

/// The stored value of channel `c` of `color` at full coverage.
pub open spec fn premultiplied(color: Color, c: int) -> int {
    if c == ALPHA as int {
        color.alpha as int
    } else if c == RED as int {
        scaled(color.red as int, color.alpha as int)
    } else if c == GREEN as int {
        scaled(color.green as int, color.alpha as int)
    } else {
        scaled(color.blue as int, color.alpha as int)
    }
}

/// Channel `c` of a pixel that `color` covers to the degree `coverage`.
pub open spec fn tinted_channel(color: Color, c: int, coverage: u8) -> u8 {
    scaled(premultiplied(color, c), coverage as int) as u8
}

/// One channel of source combined with destination. Over saturates at 255,
/// which it reaches only when a channel exceeds its own alpha.
pub open spec fn composed_channel(
    op: Operator,
    source: u8,
    source_alpha: u8,
    dest: u8,
    dest_alpha: u8,
) -> u8 {
    match op {
        Operator::Over => {
            let sum = source + scaled(dest as int, 255 - source_alpha);
            if sum > 255 {
                255u8
            } else {
                sum as u8
            }
        },
        Operator::Out => scaled(source as int, 255 - dest_alpha) as u8,
    }
}

/// The raster that shows `color` through `coverage`: each pixel is the
/// colour, weakened by the alpha of the coverage raster at that pixel.
pub open spec fn tinted(coverage: Raster, color: Color) -> Raster {
    Raster::tight(
        coverage.width,
        coverage.height,
        |x: int, y: int, c: int| tinted_channel(color, c, coverage.alpha(x, y)),
    )
}

/// `source` combined with `dest` under `op`, pixel by pixel.
pub open spec fn composed(op: Operator, source: Raster, dest: Raster) -> Raster {
    Raster::tight(
        dest.width,
        dest.height,
        |x: int, y: int, c: int|
            composed_channel(
                op,
                source.sample(x, y, c),
                source.alpha(x, y),
                dest.sample(x, y, c),
                dest.alpha(x, y),
            ),
    )
}

/// The rounded product of two bytes is a byte no greater than either.
pub proof fn lemma_scaled_bounds(a: int, b: int)
    requires
        0 <= a <= 255,
        0 <= b <= 255,
    ensures
        0 <= scaled(a, b) <= a,
        0 <= scaled(a, b) <= b,
        0 <= a * b <= 65025,
{
    assert(0 <= a * b <= 255 * a && a * b <= 255 * b) by (nonlinear_arith)
        requires
            0 <= a <= 255,
            0 <= b <= 255,
    ;
}

fn scale(a: u8, b: u8) -> (r: u8)
    ensures
        r == scaled(a as int, b as int),
{
    proof {
        lemma_scaled_bounds(a as int, b as int);
    }
    (((a as u32) * (b as u32) + 127) / 255) as u8
}

fn premultiply(color: Color, c: usize) -> (r: u8)
    requires
        c < 4,
    ensures
        r == premultiplied(color, c as int),
{
    if c == ALPHA {
        color.alpha
    } else if c == RED {
        scale(color.red, color.alpha)
    } else if c == GREEN {
        scale(color.green, color.alpha)
    } else {
        scale(color.blue, color.alpha)
    }
}

fn compose_channel(op: Operator, source: u8, source_alpha: u8, dest: u8, dest_alpha: u8) -> (r: u8)
    ensures
        r == composed_channel(op, source, source_alpha, dest, dest_alpha),
{
    match op {
        Operator::Over => {
            let sum: u16 = source as u16 + scale(dest, 255 - source_alpha) as u16;
            if sum > 255 {
                255
            } else {
                sum as u8
            }
        },
        Operator::Out => scale(source, 255 - dest_alpha),
    }
}

/// A fill has the size of its coverage, has no padding, and gives each
/// channel of each pixel the colour's channel weakened by the coverage there.
pub proof fn lemma_tinted_sample(coverage: Raster, color: Color, x: int, y: int, c: int)
    requires
        coverage.wf(),
        coverage.contains(x, y),
        0 <= c < 4,
    ensures
        tinted(coverage, color).wf(),
        tinted(coverage, color).same_size(coverage),
        tinted(coverage, color).sample(x, y, c) == tinted_channel(color, c, coverage.alpha(x, y)),
{
    lemma_tight_sample(
        coverage.width,
        coverage.height,
        |x: int, y: int, c: int| tinted_channel(color, c, coverage.alpha(x, y)),
        x,
        y,
        c,
    );
}

/// A combination has the size of its destination, has no padding, and gives
/// each channel of each pixel the combination of the two rasters' channels
/// there.
pub proof fn lemma_composed_sample(op: Operator, source: Raster, dest: Raster, x: int, y: int, c: int)
    requires
        dest.wf(),
        dest.contains(x, y),
        0 <= c < 4,
    ensures
        composed(op, source, dest).wf(),
        composed(op, source, dest).same_size(dest),
        composed(op, source, dest).sample(x, y, c) == composed_channel(
            op,
            source.sample(x, y, c),
            source.alpha(x, y),
            dest.sample(x, y, c),
            dest.alpha(x, y),
        ),
{
    lemma_tight_sample(
        dest.width,
        dest.height,
        |x: int, y: int, c: int|
            composed_channel(
                op,
                source.sample(x, y, c),
                source.alpha(x, y),
                dest.sample(x, y, c),
                dest.alpha(x, y),
            ),
        x,
        y,
        c,
    );
}

/// Where the coverage is zero, a fill leaves the pixel fully transparent.
pub proof fn lemma_tinted_clear(coverage: Raster, color: Color, x: int, y: int, c: int)
    requires
        coverage.wf(),
        coverage.contains(x, y),
        0 <= c < 4,
        coverage.alpha(x, y) == 0,
    ensures
        tinted(coverage, color).wf(),
        tinted(coverage, color).same_size(coverage),
        tinted(coverage, color).sample(x, y, c) == 0,
{
    lemma_tinted_sample(coverage, color, x, y, c);
    lemma_scaled_bounds(color.red as int, color.alpha as int);
    lemma_scaled_bounds(color.green as int, color.alpha as int);
    lemma_scaled_bounds(color.blue as int, color.alpha as int);
    lemma_scaled_bounds(premultiplied(color, c), 0);
}

/// A channel that is zero in a fully transparent source pixel stays zero
/// under Out, and under Over if it is zero in the destination too.
pub proof fn lemma_composed_clear(op: Operator, source: Raster, dest: Raster, x: int, y: int, c: int)
    requires
        dest.wf(),
        dest.contains(x, y),
        0 <= c < 4,
        source.sample(x, y, c) == 0,
        source.alpha(x, y) == 0,
        op == Operator::Over ==> dest.sample(x, y, c) == 0,
    ensures
        composed(op, source, dest).wf(),
        composed(op, source, dest).same_size(dest),
        composed(op, source, dest).sample(x, y, c) == 0,
{
    lemma_composed_sample(op, source, dest, x, y, c);
    lemma_scaled_bounds(0, 255 - dest.alpha(x, y));
    lemma_scaled_bounds(dest.sample(x, y, c) as int, 255);
}

/// The geometry of a tight raster as large as `r`.
pub proof fn lemma_tight_geometry(r: Raster)
    requires
        r.wf(),
    ensures
        4 * r.width * r.height <= r.bytes.len(),
        4 * r.width * r.height == (4 * r.width) * r.height,
{
    let w = r.width as int;
    let h = r.height as int;
    let s = r.stride as int;
    assert((4 * w) * h <= s * h) by (nonlinear_arith)
        requires
            4 * w <= s,
            h >= 0,
    ;
}

/// Paints `color` through `coverage`: a fresh raster of the same size, each
/// pixel of which is the colour weakened by the coverage raster's alpha.
pub fn fill(coverage: &PixelBuffer, color: Color) -> (result: PixelBuffer)
    requires
        coverage.wf(),
    ensures
        result.wf(),
        result@ == tinted(coverage@, color),
{
    let width = coverage.width();
    let height = coverage.height();
    let limit = coverage.bytes().len();
    proof {
        lemma_tight_geometry(coverage@);
    }
    assert(4 * width <= limit) by (nonlinear_arith)
        requires
            (4 * width) * height <= limit,
            height >= 1,
            width >= 0,
    ;
    let row = 4 * width;
    let len = row * height;
    let ghost target = tinted(coverage@, color);
    let mut out: Vec<u8> = Vec::with_capacity(len);
    let mut i: usize = 0;
    while i < len
        invariant
            coverage.wf(),
            width == coverage@.width,
            height == coverage@.height,
            row == 4 * width,
            len == row * height,
            target == tinted(coverage@, color),
            target.bytes.len() == len,
            0 <= i <= len,
            out@.len() == i,
            forall|j: int| 0 <= j < i ==> out@[j] == target.bytes[j],
        decreases len - i,
    {
        let y = i / row;
        let within = i % row;
        let x = within / 4;
        let c = within % 4;
        proof {
            lemma_row_of_byte(target, i as int);
        }
        let value = scale(premultiply(color, c), coverage.channel(x, y, ALPHA));
        out.push(value);
        i = i + 1;
    }
    assert(out@ =~= target.bytes);
    PixelBuffer::from_tight(width, height, out)
}

/// Combines `source` with `dest` under `op` into a fresh raster.
///
/// Fails with `InvalidArgument` when the two differ in width or height.
pub fn composite(op: Operator, source: &PixelBuffer, dest: &PixelBuffer) -> (result: Result<
    PixelBuffer,
    ZoneError,
>)
    requires
        source.wf(),
        dest.wf(),
    ensures
        result is Ok <==> source@.same_size(dest@),
        result matches Ok(buffer) ==> buffer.wf() && buffer@ == composed(op, source@, dest@),
        result matches Err(e) ==> e == ZoneError::InvalidArgument,
{
    if source.width() != dest.width() || source.height() != dest.height() {
        return Err(ZoneError::InvalidArgument);
    }
    Ok(combine(op, source, dest))
}

/// Combines two rasters of the same size.
pub(crate) fn combine(op: Operator, source: &PixelBuffer, dest: &PixelBuffer) -> (result: PixelBuffer)
    requires
        source.wf(),
        dest.wf(),
        source@.same_size(dest@),
    ensures
        result.wf(),
        result@ == composed(op, source@, dest@),
{
    let width = dest.width();
    let height = dest.height();
    let limit = dest.bytes().len();
    proof {
        lemma_tight_geometry(dest@);
    }
    assert(4 * width <= limit) by (nonlinear_arith)
        requires
            (4 * width) * height <= limit,
            height >= 1,
            width >= 0,
    ;
    let row = 4 * width;
    let len = row * height;
    let ghost target = composed(op, source@, dest@);
    let mut out: Vec<u8> = Vec::with_capacity(len);
    let mut i: usize = 0;
    while i < len
        invariant
            source.wf(),
            dest.wf(),
            source@.same_size(dest@),
            width == dest@.width,
            height == dest@.height,
            row == 4 * width,
            len == row * height,
            target == composed(op, source@, dest@),
            target.bytes.len() == len,
            0 <= i <= len,
            out@.len() == i,
            forall|j: int| 0 <= j < i ==> out@[j] == target.bytes[j],
        decreases len - i,
    {
        let y = i / row;
        let within = i % row;
        let x = within / 4;
        let c = within % 4;
        proof {
            lemma_row_of_byte(target, i as int);
        }
        let value = compose_channel(
            op,
            source.channel(x, y, c),
            source.channel(x, y, ALPHA),
            dest.channel(x, y, c),
            dest.channel(x, y, ALPHA),
        );
        out.push(value);
        i = i + 1;
    }
    assert(out@ =~= target.bytes);
    PixelBuffer::from_tight(width, height, out)
}

} // verus!
