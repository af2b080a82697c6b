//! Separable blur of a raster by a kernel of integer weights.
//!
//! A blur runs one pass along the rows and then one along the columns.
//! In each pass a sample becomes the weighted mean of the samples its
//! kernel taps fall on in the pass's input. Taps that fall outside the raster
//! are left out of the sum and of the divisor alike, so a sample near an edge
//! is the mean of its in-bounds neighbours, not darkened by imagined zeros.
//! The mean is rounded down, which keeps it a byte.
//!
//! Weights are integers of any common scale: dividing by the sum of the
//! participating weights normalises them.

use vstd::prelude::*;
use crate::error::ZoneError;
use crate::pixel::{
    lemma_mirrored_sample, lemma_offset_in_bounds, lemma_row_of_byte, PixelBuffer, Raster, ALPHA,
};
use crate::ratio::Ratio;

verus! {

/// Which channels a blur touches.
#[derive(Clone, Copy, Debug, PartialEq, Eq, Structural)]
pub enum BlurChannels {
    /// Alpha only; colour bytes are left as they are.
    AlphaOnly,
    /// All four channels.
    Argb,
}

impl BlurChannels {
    /// Whether the channel at offset `c` within a pixel is blurred.
    pub open spec fn selects(self, c: int) -> bool {
        match self {
            BlurChannels::AlphaOnly => c == ALPHA as int,
            BlurChannels::Argb => 0 <= c < 4,
        }
    }

    fn includes(self, c: usize) -> (b: bool)
        requires
            c < 4,
        ensures
            b == self.selects(c as int),
    {
        match self {
            BlurChannels::AlphaOnly => c == ALPHA,
            BlurChannels::Argb => true,
        }
    }
}

/// Whether the weights read the same from both ends, as the weights of a
/// bell curve do.
pub open spec fn symmetric(weights: Seq<u32>) -> bool {
    forall|k: int|
        0 <= k < weights.len() ==> #[trigger] weights[k] == weights[weights.len() - 1 - k]
}

/// A kernel has an odd number of taps, a centre tap that counts, and
/// weights that read the same from both ends.
pub open spec fn kernel_wf(weights: Seq<u32>) -> bool {
    &&& weights.len() % 2 == 1
    &&& weights[weights.len() as int / 2] > 0
    &&& symmetric(weights)
}

/// Number of taps on either side of the centre for a blur of spread
/// `sigma`: three times `sigma`, rounded up.
pub open spec fn reach(sigma: Ratio) -> int {
    sigma.ceil_times(3)
}

/// The position in the line that tap `k` of a kernel of `taps` taps reads
/// when the kernel is centred on `pos`.
pub open spec fn tap_position(taps: int, pos: int, k: int) -> int {
    pos + k - taps / 2
}

/// Sum of weight times sample over the first `n` taps, counting only taps
/// that fall inside the line.
pub open spec fn weighted_total(line: Seq<u8>, weights: Seq<u32>, pos: int, n: int) -> int
    decreases n,
{
    if n <= 0 {
        0
    } else {
        let j = tap_position(weights.len() as int, pos, n - 1);
        weighted_total(line, weights, pos, n - 1) + if 0 <= j < line.len() {
            weights[n - 1] * line[j]
        } else {
            0
        }
    }
}

/// Sum of the weights of the first `n` taps, counting only taps that fall
/// inside a line of `extent` samples.
pub open spec fn weight_total(extent: int, weights: Seq<u32>, pos: int, n: int) -> int
    decreases n,
{
    if n <= 0 {
        0
    } else {
        let j = tap_position(weights.len() as int, pos, n - 1);
        weight_total(extent, weights, pos, n - 1) + if 0 <= j < extent {
            weights[n - 1] as int
        } else {
            0
        }
    }
}

/// The blurred value of the sample at `pos` of `line`: the weighted mean of
/// its in-bounds neighbours, rounded down.
pub open spec fn blurred_sample(line: Seq<u8>, weights: Seq<u32>, pos: int) -> int {
    weighted_total(line, weights, pos, weights.len() as int) / weight_total(
        line.len() as int,
        weights,
        pos,
        weights.len() as int,
    )
}

/// Channel `c` along row `y`.
pub open spec fn row_line(r: Raster, y: int, c: int) -> Seq<u8> {
    Seq::new(r.width, |x: int| r.sample(x, y, c))
}

/// Channel `c` along column `x`.
pub open spec fn column_line(r: Raster, x: int, c: int) -> Seq<u8> {
    Seq::new(r.height, |y: int| r.sample(x, y, c))
}

/// What a pass makes of channel `c` of pixel `(x, y)`.
pub open spec fn pass_sample(
    r: Raster,
    weights: Seq<u32>,
    channels: BlurChannels,
    horizontal: bool,
    x: int,
    y: int,
    c: int,
) -> u8 {
    if !channels.selects(c) {
        r.sample(x, y, c)
    } else if horizontal {
        blurred_sample(row_line(r, y, c), weights, x) as u8
    } else {
        blurred_sample(column_line(r, x, c), weights, y) as u8
    }
}

/// What a pass makes of the byte at index `i`: padding stays, a channel
/// byte becomes its pass sample.
pub open spec fn pass_byte(
    r: Raster,
    weights: Seq<u32>,
    channels: BlurChannels,
    horizontal: bool,
    i: int,
) -> u8 {
    let y = i / (r.stride as int);
    let within = i % (r.stride as int);
    if within < 4 * r.width {
        pass_sample(r, weights, channels, horizontal, within / 4, y, within % 4)
    } else {
        r.bytes[i]
    }
}

/// One pass over the whole raster, along the rows if `horizontal` and along
/// the columns otherwise.
pub open spec fn pass(r: Raster, weights: Seq<u32>, channels: BlurChannels, horizontal: bool) -> Raster {
    Raster {
        width: r.width,
        height: r.height,
        stride: r.stride,
        bytes: Seq::new(r.bytes.len(), |i: int| pass_byte(r, weights, channels, horizontal, i)),
    }
}

/// The blurred raster: a pass along the rows, then one along the columns of
/// its result. A kernel of a single tap changes nothing.
pub open spec fn blurred(r: Raster, weights: Seq<u32>, channels: BlurChannels) -> Raster {
    if weights.len() == 1 {
        r
    } else {
        pass(pass(r, weights, channels, true), weights, channels, false)
    }
}

fn reads_the_same_both_ways(weights: &Vec<u32>) -> (b: bool)
    ensures
        b == symmetric(weights@),
{
    let n = weights.len();
    let mut k: usize = 0;
    while k < n / 2
        invariant
            n == weights@.len(),
            0 <= k <= n / 2,
            forall|j: int| 0 <= j < k ==> #[trigger] weights@[j] == weights@[n - 1 - j],
        decreases n / 2 - k,
    {
        if weights[k] != weights[n - 1 - k] {
            return false;
        }
        k = k + 1;
    }
    assert forall|j: int| 0 <= j < n implies #[trigger] weights@[j] == weights@[n - 1 - j] by {
        if j >= n / 2 && n - 1 - j < n / 2 {
            assert(weights@[n - 1 - j] == weights@[n - 1 - (n - 1 - j)]);
        }
    }
    true
}

/// The weights of a blur, centre tap in the middle.
#[derive(Clone, Debug)]
pub struct BlurKernel {
    weights: Vec<u32>,
}

impl View for BlurKernel {
    type V = Seq<u32>;

    closed spec fn view(&self) -> Seq<u32> {
        self.weights@
    }
}

impl BlurKernel {
    /// The representation invariant.
    pub open spec fn wf(&self) -> bool {
        kernel_wf(self@)
    }

    /// A kernel with the given weights.
    ///
    /// Fails with `InvalidArgument` unless the number of weights is odd,
    /// the centre weight is positive, and the weights read the same from
    /// both ends.
    pub fn new(weights: Vec<u32>) -> (result: Result<BlurKernel, ZoneError>)
        ensures
            result is Ok <==> kernel_wf(weights@),
            result matches Ok(kernel) ==> kernel@ == weights@ && kernel.wf(),
            result matches Err(e) ==> e == ZoneError::InvalidArgument,
    {
        let n = weights.len();
        if n % 2 != 1 {
            return Err(ZoneError::InvalidArgument);
        }
        if weights[n / 2] == 0 {
            return Err(ZoneError::InvalidArgument);
        }
        if !reads_the_same_both_ways(&weights) {
            return Err(ZoneError::InvalidArgument);
        }
        Ok(BlurKernel { weights })
    }

    /// A kernel for a blur of spread `sigma`.
    ///
    /// Fails with `InvalidArgument` unless `sigma` is positive, there are
    /// `2 * reach(sigma) + 1` weights, the centre weight is positive, and
    /// the weights read the same from both ends.
    pub fn for_sigma(sigma: Ratio, weights: Vec<u32>) -> (result: Result<BlurKernel, ZoneError>)
        ensures
            result is Ok <==> {
                &&& sigma.is_positive()
                &&& weights@.len() == 2 * reach(sigma) + 1
                &&& kernel_wf(weights@)
            },
            result matches Ok(kernel) ==> kernel@ == weights@ && kernel.wf(),
            result matches Err(e) ==> e == ZoneError::InvalidArgument,
    {
        if sigma.numer == 0 {
            return Err(ZoneError::InvalidArgument);
        }
        let side = match sigma.times_ceil(3) {
            Some(side) => side,
            None => {
                return Err(ZoneError::InvalidArgument);
            },
        };
        let n = weights.len();
        if n % 2 != 1 {
            return Err(ZoneError::InvalidArgument);
        }
        if (n / 2) as u64 != side {
            return Err(ZoneError::InvalidArgument);
        }
        if weights[n / 2] == 0 {
            return Err(ZoneError::InvalidArgument);
        }
        if !reads_the_same_both_ways(&weights) {
            return Err(ZoneError::InvalidArgument);
        }
        Ok(BlurKernel { weights })
    }

    /// Number of taps.
    pub fn len(&self) -> (n: usize)
        ensures
            n == self@.len(),
    {
        self.weights.len()
    }

    /// Number of taps on either side of the centre.
    pub fn radius(&self) -> (r: usize)
        ensures
            r == self@.len() / 2,
    {
        self.weights.len() / 2
    }

    /// The weight of tap `k`.
    pub(crate) fn weight(&self, k: usize) -> (w: u32)
        requires
            k < self@.len(),
        ensures
            w == self@[k as int],
    {
        self.weights[k]
    }

    /// The weights, first tap first.
    pub fn weights(&self) -> (w: &Vec<u32>)
        ensures
            w@ == self@,
    {
        &self.weights
    }
}

/// Number of taps on either side of the centre for a blur of spread
/// `sigma`; `InvalidArgument` unless `sigma` is positive.
pub fn kernel_radius(sigma: Ratio) -> (result: Result<u64, ZoneError>)
    ensures
        match result {
            Ok(side) => sigma.is_positive() && side == reach(sigma),
            Err(e) => e == ZoneError::InvalidArgument && !sigma.is_positive(),
        },
{
    if sigma.numer == 0 {
        return Err(ZoneError::InvalidArgument);
    }
    match sigma.times_ceil(3) {
        Some(side) => Ok(side),
        None => Err(ZoneError::InvalidArgument),
    }
}

/// Partial sums grow with the number of taps, the weighted sum never exceeds
/// 255 times the sum of weights, and each tap adds at most one weight.
pub proof fn lemma_totals_bounded(line: Seq<u8>, weights: Seq<u32>, pos: int, n: int)
    requires
        0 <= n <= weights.len(),
    ensures
        0 <= weighted_total(line, weights, pos, n) <= 255 * weight_total(
            line.len() as int,
            weights,
            pos,
            n,
        ),
        0 <= weight_total(line.len() as int, weights, pos, n) <= n * 0xFFFF_FFFF,
    decreases n,
{
    if n > 0 {
        lemma_totals_bounded(line, weights, pos, n - 1);
        let j = tap_position(weights.len() as int, pos, n - 1);
        if 0 <= j < line.len() {
            let w = weights[n - 1];
            let v = line[j];
            assert(0 <= w * v <= 255 * w) by (nonlinear_arith)
                requires
                    0 <= w,
                    0 <= v <= 255,
            ;
        }
    }
}

/// The sum of weights never shrinks as taps are added.
pub proof fn lemma_weight_total_monotonic(extent: int, weights: Seq<u32>, pos: int, m: int, n: int)
    requires
        0 <= m <= n <= weights.len(),
    ensures
        weight_total(extent, weights, pos, m) <= weight_total(extent, weights, pos, n),
    decreases n - m,
{
    if m < n {
        lemma_weight_total_monotonic(extent, weights, pos, m, n - 1);
    }
}

/// The centre tap always falls inside the line, so the divisor of a blurred
/// sample is positive.
pub proof fn lemma_divisor_positive(extent: int, weights: Seq<u32>, pos: int)
    requires
        kernel_wf(weights),
        0 <= pos < extent,
    ensures
        weight_total(extent, weights, pos, weights.len() as int) > 0,
{
    let centre = weights.len() as int / 2;
    assert(weight_total(extent, weights, pos, centre + 1) >= weights[centre]) by {
        lemma_weight_total_monotonic(extent, weights, pos, 0, centre);
    }
    lemma_weight_total_monotonic(extent, weights, pos, centre + 1, weights.len() as int);
}

/// A blurred sample is a byte.
pub proof fn lemma_blurred_sample_is_byte(line: Seq<u8>, weights: Seq<u32>, pos: int)
    requires
        kernel_wf(weights),
        0 <= pos < line.len(),
    ensures
        0 <= blurred_sample(line, weights, pos) <= 255,
{
    let n = weights.len() as int;
    let num = weighted_total(line, weights, pos, n);
    let den = weight_total(line.len() as int, weights, pos, n);
    lemma_totals_bounded(line, weights, pos, n);
    lemma_divisor_positive(line.len() as int, weights, pos);
    lemma_mean_bounded(num, den);
}

/// A non-negative numerator of at most 255 times a positive divisor has a
/// quotient of at most 255.
pub proof fn lemma_mean_bounded(num: int, den: int)
    requires
        den > 0,
        0 <= num <= 255 * den,
    ensures
        0 <= num / den <= 255,
{
    vstd::arithmetic::div_mod::lemma_div_pos_is_pos(num, den);
    vstd::arithmetic::div_mod::lemma_div_is_ordered(num, 255 * den, den);
    vstd::arithmetic::div_mod::lemma_div_multiples_vanish(255, den);
}

/// On a line whose samples all equal `a`, the weighted sum is `a` times the
/// sum of weights.
pub proof fn lemma_uniform_totals(line: Seq<u8>, weights: Seq<u32>, pos: int, n: int, a: u8)
    requires
        0 <= n <= weights.len(),
        forall|j: int| 0 <= j < line.len() ==> line[j] == a,
    ensures
        weighted_total(line, weights, pos, n) == a * weight_total(
            line.len() as int,
            weights,
            pos,
            n,
        ),
    decreases n,
{
    if n > 0 {
        lemma_uniform_totals(line, weights, pos, n - 1, a);
        let j = tap_position(weights.len() as int, pos, n - 1);
        let before = weight_total(line.len() as int, weights, pos, n - 1);
        let w = weights[n - 1] as int;
        if 0 <= j < line.len() {
            assert(a * before + w * a == a * (before + w)) by (nonlinear_arith);
        }
    }
}

/// The mean of equal samples is that sample.
pub proof fn lemma_uniform_line_is_fixed(line: Seq<u8>, weights: Seq<u32>, pos: int, a: u8)
    requires
        kernel_wf(weights),
        0 <= pos < line.len(),
        forall|j: int| 0 <= j < line.len() ==> line[j] == a,
    ensures
        blurred_sample(line, weights, pos) == a,
{
    let n = weights.len() as int;
    let den = weight_total(line.len() as int, weights, pos, n);
    lemma_uniform_totals(line, weights, pos, n, a);
    lemma_divisor_positive(line.len() as int, weights, pos);
    vstd::arithmetic::div_mod::lemma_div_multiples_vanish(a as int, den);
}

/// The line through pixel `(x, y)` that a pass blurs along.
pub open spec fn pass_line(r: Raster, horizontal: bool, x: int, y: int, c: int) -> Seq<u8> {
    if horizontal {
        row_line(r, y, c)
    } else {
        column_line(r, x, c)
    }
}

/// Blurs one sample: channel `c` of pixel `(x, y)`, along its row if
/// `horizontal` and along its column otherwise.
fn blur_sample(
    source: &PixelBuffer,
    kernel: &BlurKernel,
    horizontal: bool,
    x: usize,
    y: usize,
    c: usize,
) -> (v: u8)
    requires
        source.wf(),
        kernel.wf(),
        source@.contains(x as int, y as int),
        c < 4,
    ensures
        v == blurred_sample(
            pass_line(source@, horizontal, x as int, y as int, c as int),
            kernel@,
            if horizontal {
                x as int
            } else {
                y as int
            },
        ),
{
    let taps = kernel.len();
    let radius = kernel.radius();
    let pos = if horizontal {
        x
    } else {
        y
    };
    let extent = if horizontal {
        source.width()
    } else {
        source.height()
    };
    let ghost line = pass_line(source@, horizontal, x as int, y as int, c as int);
    let mut num: u128 = 0;
    let mut den: u128 = 0;
    let mut k: usize = 0;
    while k < taps
        invariant
            source.wf(),
            source@.contains(x as int, y as int),
            c < 4,
            0 <= k <= taps,
            taps == kernel@.len(),
            radius == taps / 2,
            pos == if horizontal {
                x
            } else {
                y
            },
            extent == if horizontal {
                source@.width
            } else {
                source@.height
            },
            line == pass_line(source@, horizontal, x as int, y as int, c as int),
            line.len() == extent,
            num == weighted_total(line, kernel@, pos as int, k as int),
            den == weight_total(extent as int, kernel@, pos as int, k as int),
        decreases taps - k,
    {
        proof {
            lemma_totals_bounded(line, kernel@, pos as int, k as int);
            lemma_totals_bounded(line, kernel@, pos as int, k as int + 1);
        }
        let shifted: u128 = pos as u128 + k as u128;
        if shifted >= radius as u128 && shifted - (radius as u128) < extent as u128 {
            let j: usize = (shifted - radius as u128) as usize;
            let sample = if horizontal {
                source.channel(j, y, c)
            } else {
                source.channel(x, j, c)
            };
            let w = kernel.weight(k);
            assert(w * sample <= 255 * w) by (nonlinear_arith)
                requires
                    0 <= w,
                    0 <= sample <= 255,
            ;
            num = num + (w as u128) * (sample as u128);
            den = den + (w as u128);
        }
        k = k + 1;
    }
    proof {
        lemma_divisor_positive(extent as int, kernel@, pos as int);
        lemma_blurred_sample_is_byte(line, kernel@, pos as int);
    }
    (num / den) as u8
}

/// Runs one pass and returns the bytes of its result.
fn run_pass(source: &PixelBuffer, kernel: &BlurKernel, channels: BlurChannels, horizontal: bool) -> (out:
    Vec<u8>)
    requires
        source.wf(),
        kernel.wf(),
    ensures
        out@ == pass(source@, kernel@, channels, horizontal).bytes,
{
    let bytes = source.bytes();
    let len = bytes.len();
    let stride = source.stride();
    let width = source.width();
    let mut out: Vec<u8> = Vec::with_capacity(len);
    let mut i: usize = 0;
    while i < len
        invariant
            source.wf(),
            kernel.wf(),
            bytes@ == source@.bytes,
            len == bytes@.len(),
            stride == source@.stride,
            width == source@.width,
            0 <= i <= len,
            out@.len() == i,
            forall|j: int| 0 <= j < i ==> out@[j] == pass_byte(source@, kernel@, channels, horizontal, j),
        decreases len - i,
    {
        let y = i / stride;
        let within = i % stride;
        proof {
            lemma_row_of_byte(source@, i as int);
        }
        let value = if within < 4 * width {
            let c = within % 4;
            if channels.includes(c) {
                blur_sample(source, kernel, horizontal, within / 4, y, c)
            } else {
                proof {
                    lemma_offset_in_bounds(source@, (within / 4) as int, y as int, c as int);
                }
                bytes[i]
            }
        } else {
            bytes[i]
        };
        out.push(value);
        i = i + 1;
    }
    out
}

/// Blurs `buffer` in place with `kernel`, on the chosen channels.
///
/// The result is a pass along the rows followed by a pass along the columns;
/// a kernel of a single tap leaves the raster as it is.
pub fn blur(buffer: &mut PixelBuffer, kernel: &BlurKernel, channels: BlurChannels)
    requires
        old(buffer).wf(),
        kernel.wf(),
    ensures
        final(buffer).wf(),
        final(buffer)@ == blurred(old(buffer)@, kernel@, channels),
{
    if kernel.len() == 1 {
        return ;
    }
    let rows = run_pass(buffer, kernel, channels, true);
    buffer.replace_bytes(rows);
    let columns = run_pass(buffer, kernel, channels, false);
    buffer.replace_bytes(columns);
}

/// A pass keeps the geometry and gives each channel of each pixel its pass
/// sample.
pub proof fn lemma_pass_sample(
    r: Raster,
    weights: Seq<u32>,
    channels: BlurChannels,
    horizontal: bool,
    x: int,
    y: int,
    c: int,
)
    requires
        r.wf(),
        r.contains(x, y),
        0 <= c < 4,
    ensures
        pass(r, weights, channels, horizontal).wf(),
        pass(r, weights, channels, horizontal).same_size(r),
        pass(r, weights, channels, horizontal).sample(x, y, c) == pass_sample(
            r,
            weights,
            channels,
            horizontal,
            x,
            y,
            c,
        ),
{
    let s = r.stride as int;
    let i = r.offset(x, y, c);
    lemma_offset_in_bounds(r, x, y, c);
    vstd::arithmetic::div_mod::lemma_fundamental_div_mod_converse(i, s, y, 4 * x + c);
}

/// A pass over a raster of uniform alpha leaves every alpha as it is.
pub proof fn lemma_pass_keeps_uniform_alpha(
    r: Raster,
    weights: Seq<u32>,
    channels: BlurChannels,
    horizontal: bool,
    a: u8,
)
    requires
        r.wf(),
        kernel_wf(weights),
        forall|x: int, y: int| r.contains(x, y) ==> r.alpha(x, y) == a,
    ensures
        pass(r, weights, channels, horizontal).wf(),
        pass(r, weights, channels, horizontal).same_size(r),
        forall|x: int, y: int|
            r.contains(x, y) ==> #[trigger] pass(r, weights, channels, horizontal).alpha(x, y) == a,
{
    let after = pass(r, weights, channels, horizontal);
    lemma_pass_sample(r, weights, channels, horizontal, 0, 0, 0);
    assert forall|x: int, y: int| r.contains(x, y) implies #[trigger] after.alpha(x, y) == a by {
        lemma_pass_sample(r, weights, channels, horizontal, x, y, ALPHA as int);
        let line = pass_line(r, horizontal, x, y, ALPHA as int);
        let pos = if horizontal {
            x
        } else {
            y
        };
        assert forall|j: int| 0 <= j < line.len() implies line[j] == a by {
            if horizontal {
                assert(line[j] == r.alpha(j, y));
            } else {
                assert(line[j] == r.alpha(x, j));
            }
        }
        lemma_uniform_line_is_fixed(line, weights, pos, a);
    }
}

/// Blurring a raster whose pixels all have alpha `a` leaves every pixel with
/// alpha `a`, whatever the kernel and whichever channels are blurred.
pub proof fn lemma_blur_keeps_uniform_alpha(
    r: Raster,
    weights: Seq<u32>,
    channels: BlurChannels,
    a: u8,
)
    requires
        r.wf(),
        kernel_wf(weights),
        forall|x: int, y: int| r.contains(x, y) ==> r.alpha(x, y) == a,
    ensures
        blurred(r, weights, channels).wf(),
        blurred(r, weights, channels).same_size(r),
        forall|x: int, y: int|
            r.contains(x, y) ==> #[trigger] blurred(r, weights, channels).alpha(x, y) == a,
{
    if weights.len() != 1 {
        let rows = pass(r, weights, channels, true);
        lemma_pass_keeps_uniform_alpha(r, weights, channels, true, a);
        assert forall|x: int, y: int| rows.contains(x, y) implies rows.alpha(x, y) == a by {
        }
        lemma_pass_keeps_uniform_alpha(rows, weights, channels, false, a);
        assert forall|x: int, y: int| r.contains(x, y) implies #[trigger] blurred(
            r,
            weights,
            channels,
        ).alpha(x, y) == a by {
        }
    }
}

/// A blur moves no pixel and touches no channel it was not asked to blur.
pub proof fn lemma_blur_keeps_unselected(
    r: Raster,
    weights: Seq<u32>,
    channels: BlurChannels,
    x: int,
    y: int,
    c: int,
)
    requires
        r.wf(),
        r.contains(x, y),
        0 <= c < 4,
        !channels.selects(c),
    ensures
        blurred(r, weights, channels).wf(),
        blurred(r, weights, channels).same_size(r),
        blurred(r, weights, channels).sample(x, y, c) == r.sample(x, y, c),
{
    if weights.len() != 1 {
        let rows = pass(r, weights, channels, true);
        lemma_pass_sample(r, weights, channels, true, x, y, c);
        lemma_pass_sample(rows, weights, channels, false, x, y, c);
    }
}

/// Where every sample within a kernel's reach of `pos` is zero, the
/// weighted sum is zero.
pub proof fn lemma_clear_reach_totals(line: Seq<u8>, weights: Seq<u32>, pos: int, n: int)
    requires
        kernel_wf(weights),
        0 <= n <= weights.len(),
        forall|j: int|
            0 <= j < line.len() && pos - weights.len() / 2 <= j <= pos + weights.len() / 2
                ==> line[j] == 0,
    ensures
        weighted_total(line, weights, pos, n) == 0,
    decreases n,
{
    if n > 0 {
        lemma_clear_reach_totals(line, weights, pos, n - 1);
        let j = tap_position(weights.len() as int, pos, n - 1);
        if 0 <= j < line.len() {
            assert(weights[n - 1] * line[j] == 0) by (nonlinear_arith)
                requires
                    line[j] == 0,
            ;
        }
    }
}

/// Where every sample within a kernel's reach of `pos` is zero, the blurred
/// sample at `pos` is zero.
pub proof fn lemma_clear_reach_is_clear(line: Seq<u8>, weights: Seq<u32>, pos: int)
    requires
        kernel_wf(weights),
        0 <= pos < line.len(),
        forall|j: int|
            0 <= j < line.len() && pos - weights.len() / 2 <= j <= pos + weights.len() / 2
                ==> line[j] == 0,
    ensures
        blurred_sample(line, weights, pos) == 0,
{
    let n = weights.len() as int;
    let den = weight_total(line.len() as int, weights, pos, n);
    lemma_clear_reach_totals(line, weights, pos, n);
    lemma_divisor_positive(line.len() as int, weights, pos);
    assert(0int / den == 0) by (nonlinear_arith)
        requires
            den > 0,
    ;
}

/// A blur does not spread alpha further than its kernel reaches: a pixel
/// stays fully transparent if every pixel within the kernel's reach of it,
/// along both axes, is fully transparent.
pub proof fn lemma_blur_keeps_clear(
    r: Raster,
    weights: Seq<u32>,
    channels: BlurChannels,
    x: int,
    y: int,
)
    requires
        r.wf(),
        kernel_wf(weights),
        r.contains(x, y),
        forall|u: int, v: int|
            r.contains(u, v) && x - weights.len() / 2 <= u <= x + weights.len() / 2 && y
                - weights.len() / 2 <= v <= y + weights.len() / 2 ==> r.alpha(u, v) == 0,
    ensures
        blurred(r, weights, channels).alpha(x, y) == 0,
{
    let reach = weights.len() as int / 2;
    let a = ALPHA as int;
    if weights.len() != 1 {
        let rows = pass(r, weights, channels, true);
        assert forall|v: int| 0 <= v < r.height && y - reach <= v <= y + reach implies rows.alpha(
            x,
            v,
        ) == 0 by {
            lemma_pass_sample(r, weights, channels, true, x, v, a);
            let line = row_line(r, v, a);
            assert forall|j: int|
                0 <= j < line.len() && x - reach <= j <= x + reach implies line[j] == 0 by {
                assert(line[j] == r.alpha(j, v));
            }
            lemma_clear_reach_is_clear(line, weights, x);
        }
        lemma_pass_sample(r, weights, channels, true, x, y, a);
        lemma_pass_sample(rows, weights, channels, false, x, y, a);
        let line = column_line(rows, x, a);
        assert forall|j: int|
            0 <= j < line.len() && y - reach <= j <= y + reach implies line[j] == 0 by {
            assert(line[j] == rows.alpha(x, j));
        }
        lemma_clear_reach_is_clear(line, weights, y);
    }
}

/// What tap `k` adds to the weighted sum: its weight times the sample it
/// falls on, or nothing if it falls outside the line.
pub open spec fn tap_term(line: Seq<u8>, weights: Seq<u32>, pos: int, k: int) -> int {
    let j = tap_position(weights.len() as int, pos, k);
    if 0 <= j < line.len() {
        weights[k] * line[j]
    } else {
        0
    }
}

/// Sum of weight times sample over the taps from `m` on, counting only taps
/// that fall inside the line.
pub open spec fn weighted_rest(line: Seq<u8>, weights: Seq<u32>, pos: int, m: int) -> int
    decreases weights.len() - m,
{
    if m >= weights.len() {
        0
    } else {
        tap_term(line, weights, pos, m) + weighted_rest(line, weights, pos, m + 1)
    }
}

/// The first taps and the rest make up the whole sum.
pub proof fn lemma_total_and_rest(line: Seq<u8>, weights: Seq<u32>, pos: int, n: int)
    requires
        0 <= n <= weights.len(),
    ensures
        weighted_total(line, weights, pos, n) + weighted_rest(line, weights, pos, n)
            == weighted_rest(line, weights, pos, 0),
    decreases n,
{
    if n > 0 {
        lemma_total_and_rest(line, weights, pos, n - 1);
    }
}

/// Summing the first taps over the mirrored line is summing the last taps
/// over the line itself.
pub proof fn lemma_mirrored_total(line: Seq<u8>, weights: Seq<u32>, pos: int, n: int)
    requires
        kernel_wf(weights),
        0 <= n <= weights.len(),
    ensures
        weighted_total(line.reverse(), weights, line.len() - 1 - pos, n) == weighted_rest(
            line,
            weights,
            pos,
            weights.len() - n,
        ),
    decreases n,
{
    if n > 0 {
        lemma_mirrored_total(line, weights, pos, n - 1);
        let taps = weights.len() as int;
        let there = tap_position(taps, line.len() - 1 - pos, n - 1);
        let here = tap_position(taps, pos, taps - n);
        assert(here == line.len() - 1 - there);
        assert(weights[n - 1] == weights[taps - n]);
        if 0 <= there < line.len() {
            assert(line.reverse()[there] == line[here]);
        }
    }
}

/// The sum of weights is the weighted sum over a line of ones.
pub proof fn lemma_weights_over_ones(extent: nat, weights: Seq<u32>, pos: int, n: int)
    requires
        0 <= n <= weights.len(),
    ensures
        weight_total(extent as int, weights, pos, n) == weighted_total(
            Seq::new(extent, |i: int| 1u8),
            weights,
            pos,
            n,
        ),
    decreases n,
{
    if n > 0 {
        lemma_weights_over_ones(extent, weights, pos, n - 1);
    }
}

/// A blur knows no left and right: the mirrored line blurs to the mirrored
/// result.
pub proof fn lemma_blur_mirrors(line: Seq<u8>, weights: Seq<u32>, pos: int)
    requires
        kernel_wf(weights),
        0 <= pos < line.len(),
    ensures
        blurred_sample(line.reverse(), weights, line.len() - 1 - pos) == blurred_sample(
            line,
            weights,
            pos,
        ),
{
    let taps = weights.len() as int;
    let there = line.len() - 1 - pos;
    lemma_mirrored_total(line, weights, pos, taps);
    lemma_total_and_rest(line, weights, pos, taps);
    let ones = Seq::new(line.len(), |i: int| 1u8);
    assert(ones.reverse() =~= ones);
    lemma_weights_over_ones(line.len(), weights, pos, taps);
    lemma_weights_over_ones(line.len(), weights, there, taps);
    lemma_mirrored_total(ones, weights, pos, taps);
    lemma_total_and_rest(ones, weights, pos, taps);
}

/// A pass makes of the mirrored raster, at a pixel, what it makes of the
/// raster itself at the mirrored pixel.
pub proof fn lemma_pass_sample_mirrors(
    r: Raster,
    weights: Seq<u32>,
    channels: BlurChannels,
    horizontal: bool,
    x: int,
    y: int,
    c: int,
)
    requires
        r.wf(),
        kernel_wf(weights),
        r.contains(x, y),
        0 <= c < 4,
    ensures
        pass_sample(r.mirrored(), weights, channels, horizontal, x, y, c) == pass_sample(
            r,
            weights,
            channels,
            horizontal,
            r.width - 1 - x,
            y,
            c,
        ),
{
    let m = r.mirrored();
    let back = r.width - 1 - x;
    lemma_mirrored_sample(r, x, y, c);
    if channels.selects(c) {
        if horizontal {
            let line = row_line(r, y, c);
            assert forall|j: int| 0 <= j < r.width implies row_line(m, y, c)[j]
                == line.reverse()[j] by {
                lemma_mirrored_sample(r, j, y, c);
            }
            assert(row_line(m, y, c) =~= line.reverse());
            lemma_blur_mirrors(line, weights, back);
        } else {
            assert forall|j: int| 0 <= j < r.height implies column_line(m, x, c)[j]
                == column_line(r, back, c)[j] by {
                lemma_mirrored_sample(r, x, j, c);
            }
            assert(column_line(m, x, c) =~= column_line(r, back, c));
        }
    }
}

/// A pass over the mirrored raster gives the mirrored result of the pass.
pub proof fn lemma_pass_mirrors(r: Raster, weights: Seq<u32>, channels: BlurChannels, horizontal: bool)
    requires
        r.wf(),
        kernel_wf(weights),
    ensures
        pass(r.mirrored(), weights, channels, horizontal) == pass(
            r,
            weights,
            channels,
            horizontal,
        ).mirrored(),
{
    let m = r.mirrored();
    let after = pass(r, weights, channels, horizontal);
    let left = pass(m, weights, channels, horizontal);
    let right = after.mirrored();
    let s = r.stride as int;
    assert forall|i: int| 0 <= i < r.bytes.len() implies left.bytes[i] == right.bytes[i] by {
        let y = i / s;
        let within = i % s;
        lemma_row_of_byte(r, i);
        if within < 4 * r.width {
            let x = within / 4;
            let c = within % 4;
            lemma_pass_sample_mirrors(r, weights, channels, horizontal, x, y, c);
            lemma_pass_sample(r, weights, channels, horizontal, r.width - 1 - x, y, c);
        }
    }
    assert(left.bytes =~= right.bytes);
}

/// A blur knows no left and right: blurring the mirrored raster gives the
/// mirrored result of blurring the raster.
pub proof fn lemma_blur_mirrors_raster(r: Raster, weights: Seq<u32>, channels: BlurChannels)
    requires
        r.wf(),
        kernel_wf(weights),
    ensures
        blurred(r.mirrored(), weights, channels) == blurred(r, weights, channels).mirrored(),
{
    if weights.len() != 1 {
        let rows = pass(r, weights, channels, true);
        lemma_pass_mirrors(r, weights, channels, true);
        lemma_pass_sample(r, weights, channels, true, 0, 0, 0);
        lemma_pass_mirrors(rows, weights, channels, false);
    }
}

} // verus!
