//! The zone glyph: a translucent ring around a bright disc, each with a
//! soft drop shadow.
//!
//! The glyph is composed from four disc silhouettes, which the caller
//! rasterises: the outer disc and its shadow, the inner disc and its shadow.
//! [`DiscSpec`] says where those discs lie for a window and a display scale;
//! [`render_zone_surface`] turns the silhouettes into the finished raster.

use vstd::prelude::*;
use crate::blur::{
    blur, blurred, kernel_wf, lemma_blur_keeps_clear, lemma_blur_keeps_unselected, BlurChannels,
    BlurKernel,
};
use crate::composite::{
    combine, composed, fill, lemma_composed_clear, lemma_composed_sample, lemma_scaled_bounds,
    lemma_tinted_clear, lemma_tinted_sample, scaled, tinted, Color, Operator,
};
use crate::error::ZoneError;
use crate::pixel::{Argb, PixelBuffer, Raster};
use crate::ratio::Ratio;

verus! {

/// Width of the ring around the inner disc, in pixels at scale one.
pub const BORDER_WIDTH: u16 = 5;

/// Spread of the shadow blur, in pixels at scale one.
pub const SHADOW_SIGMA: u16 = 2;

/// Shift of the shadow to the right and downwards, in pixels at scale one.
pub const SHADOW_OFFSET: u16 = 1;

/// The shadow: black at half opacity.
pub open spec fn shadow_color() -> Color {
    Color { red: 0, green: 0, blue: 0, alpha: 128 }
}

/// A silhouette: black at full opacity.
pub open spec fn solid_color() -> Color {
    Color { red: 0, green: 0, blue: 0, alpha: 255 }
}

/// The ring: light grey at half opacity.
pub open spec fn ring_color() -> Color {
    Color { red: 204, green: 204, blue: 204, alpha: 128 }
}

/// The inner disc: white at nine tenths opacity.
pub open spec fn highlight_color() -> Color {
    Color { red: 255, green: 255, blue: 255, alpha: 230 }
}

/// A length of `pixels` pixels at scale one, scaled by `scale` and counted
/// in units of which twice the scale's denominator make a pixel.
pub open spec fn in_units(pixels: int, scale: Ratio) -> int {
    2 * pixels * scale.numer
}

/// The radius of the inner disc in a window `height` pixels high, in the
/// same units: half the height less border, shadow shift and three spreads
/// of blur.
pub open spec fn zone_radius(height: int, scale: Ratio) -> int {
    height * scale.denom - in_units(BORDER_WIDTH as int, scale) - in_units(
        SHADOW_OFFSET as int,
        scale,
    ) - 3 * in_units(SHADOW_SIGMA as int, scale)
}

/// A circle, in units of `1 / unit` pixels of the [`DiscSpec`] it belongs to.
#[derive(Clone, Copy, Debug, PartialEq, Eq, Structural)]
pub struct Circle {
    pub center_x: i64,
    pub center_y: i64,
    pub radius: i64,
}

/// The four discs that make up the zone glyph.
#[derive(Clone, Copy, Debug, PartialEq, Eq, Structural)]
pub struct ZoneCircles {
    pub outer_shadow: Circle,
    pub outer: Circle,
    pub inner_shadow: Circle,
    pub inner: Circle,
}

/// No length of a [`DiscSpec`] is larger than this many units.
pub const LENGTH_LIMIT: i64 = 0x1_0000_0000_0000;

/// The geometry of the zone glyph. All lengths are whole multiples of
/// `1 / unit` pixels, so none of them is rounded.
#[derive(Clone, Copy, Debug, PartialEq, Eq, Structural)]
pub struct DiscSpec {
    /// How many units make a pixel.
    pub unit: i64,
    pub center_x: i64,
    pub center_y: i64,
    /// Radius of the inner disc.
    pub radius: i64,
    pub border_width: i64,
    pub shadow_sigma: i64,
    pub shadow_offset_x: i64,
    pub shadow_offset_y: i64,
    pub dpi_scale: Ratio,
}

impl DiscSpec {
    /// The glyph for a window of `width` by `height` pixels at `scale`:
    /// centred in the window, border, shadow spread and shadow shift in
    /// proportion to the scale, and the radius that is left of half the
    /// height after border, shadow shift and three spreads of blur.
    pub open spec fn is_for(self, width: int, height: int, scale: Ratio) -> bool {
        &&& self.unit == 2 * scale.denom
        &&& self.center_x == width * scale.denom
        &&& self.center_y == height * scale.denom
        &&& self.border_width == in_units(BORDER_WIDTH as int, scale)
        &&& self.shadow_sigma == in_units(SHADOW_SIGMA as int, scale)
        &&& self.shadow_offset_x == in_units(SHADOW_OFFSET as int, scale)
        &&& self.shadow_offset_y == in_units(SHADOW_OFFSET as int, scale)
        &&& self.radius == zone_radius(height, scale)
        &&& self.dpi_scale == scale
    }

    /// How far from its centre a blurred shadow of the outer disc can reach.
    pub open spec fn shadow_extent(self) -> int {
        self.radius + self.border_width + 3 * self.shadow_sigma
    }

    /// Whether the blurred shadow of the outer disc stays inside a raster of
    /// `width` by `height` pixels.
    pub open spec fn shadow_fits(self, width: int, height: int) -> bool {
        &&& 0 <= self.center_x + self.shadow_offset_x - self.shadow_extent()
        &&& self.center_x + self.shadow_offset_x + self.shadow_extent() <= width * self.unit
        &&& 0 <= self.center_y + self.shadow_offset_y - self.shadow_extent()
        &&& self.center_y + self.shadow_offset_y + self.shadow_extent() <= height * self.unit
    }

    /// Lengths are in range: a positive unit and radius, a border and a
    /// blur spread that are not negative, and everything small enough to be
    /// added up.
    pub open spec fn wf(self) -> bool {
        &&& 0 < self.unit <= LENGTH_LIMIT
        &&& 0 < self.radius <= LENGTH_LIMIT
        &&& 0 <= self.border_width <= LENGTH_LIMIT
        &&& 0 <= self.shadow_sigma <= LENGTH_LIMIT
        &&& -LENGTH_LIMIT <= self.center_x <= LENGTH_LIMIT
        &&& -LENGTH_LIMIT <= self.center_y <= LENGTH_LIMIT
        &&& -LENGTH_LIMIT <= self.shadow_offset_x <= LENGTH_LIMIT
        &&& -LENGTH_LIMIT <= self.shadow_offset_y <= LENGTH_LIMIT
    }

    /// The four discs of the glyph: the outer disc is the inner disc and
    /// the ring around it, and each shadow is its disc shifted by the shadow
    /// offset.
    pub open spec fn zone_circles(self) -> ZoneCircles {
        ZoneCircles {
            outer_shadow: Circle {
                center_x: (self.center_x + self.shadow_offset_x) as i64,
                center_y: (self.center_y + self.shadow_offset_y) as i64,
                radius: (self.radius + self.border_width) as i64,
            },
            outer: Circle {
                center_x: self.center_x,
                center_y: self.center_y,
                radius: (self.radius + self.border_width) as i64,
            },
            inner_shadow: Circle {
                center_x: (self.center_x + self.shadow_offset_x) as i64,
                center_y: (self.center_y + self.shadow_offset_y) as i64,
                radius: self.radius,
            },
            inner: Circle { center_x: self.center_x, center_y: self.center_y, radius: self.radius },
        }
    }

    /// The four discs a caller rasterises for [`render_zone_surface`].
    pub fn circles(&self) -> (c: ZoneCircles)
        requires
            self.wf(),
        ensures
            c == self.zone_circles(),
            c.outer.radius == self.radius + self.border_width,
            c.outer_shadow.center_x == self.center_x + self.shadow_offset_x,
            c.outer_shadow.center_y == self.center_y + self.shadow_offset_y,
    {
        let shadow_x = self.center_x + self.shadow_offset_x;
        let shadow_y = self.center_y + self.shadow_offset_y;
        let outer_radius = self.radius + self.border_width;
        ZoneCircles {
            outer_shadow: Circle { center_x: shadow_x, center_y: shadow_y, radius: outer_radius },
            outer: Circle {
                center_x: self.center_x,
                center_y: self.center_y,
                radius: outer_radius,
            },
            inner_shadow: Circle { center_x: shadow_x, center_y: shadow_y, radius: self.radius },
            inner: Circle { center_x: self.center_x, center_y: self.center_y, radius: self.radius },
        }
    }
}

/// Why no glyph can be drawn for a window of `width` by `height` pixels at
/// `scale`, if it cannot: the window is empty, the scale is not positive or
/// no radius is left (`InvalidArgument`), or the window is higher than it is
/// wide, so that the blurred shadow would reach beyond its sides
/// (`BufferBounds`).
pub open spec fn geometry_error(width: int, height: int, scale: Ratio) -> Option<ZoneError> {
    if width < 1 || height < 1 || !scale.is_positive() || zone_radius(height, scale) <= 0 {
        Some(ZoneError::InvalidArgument)
    } else if height > width {
        Some(ZoneError::BufferBounds)
    } else {
        None
    }
}

/// For the glyph of a window, the shadow fits exactly when the window is at
/// least as wide as it is high.
pub proof fn lemma_shadow_fits_wide_windows(disc: DiscSpec, width: int, height: int, scale: Ratio)
    requires
        disc.is_for(width, height, scale),
        scale.is_positive(),
    ensures
        disc.shadow_fits(width, height) <==> height <= width,
{
    let d = scale.denom as int;
    assert(width * disc.unit == 2 * (width * d)) by (nonlinear_arith)
        requires
            disc.unit == 2 * d,
    ;
    assert(height * disc.unit == 2 * (height * d)) by (nonlinear_arith)
        requires
            disc.unit == 2 * d,
    ;
    assert(height <= width <==> height * d <= width * d) by (nonlinear_arith)
        requires
            d > 0,
    ;
}

fn to_units(pixels: u16, scale: Ratio) -> (r: i64)
    requires
        pixels <= 5,
    ensures
        r == in_units(pixels as int, scale),
        0 <= r <= 10 * scale.numer,
{
    let numer = scale.numer;
    assert(0 <= 2 * pixels * numer <= 10 * numer) by (nonlinear_arith)
        requires
            0 <= pixels <= 5,
            0 <= numer,
    ;
    (2 * (pixels as i64)) * (numer as i64)
}

/// Works out the geometry of the zone glyph for a window of `width` by
/// `height` pixels at display scale `scale`.
pub fn disc_spec(width: i32, height: i32, scale: Ratio) -> (result: Result<DiscSpec, ZoneError>)
    ensures
        match result {
            Ok(disc) => {
                &&& geometry_error(width as int, height as int, scale) is None
                &&& disc.is_for(width as int, height as int, scale)
                &&& disc.wf()
                &&& disc.shadow_fits(width as int, height as int)
            },
            Err(e) => geometry_error(width as int, height as int, scale) == Some(e),
        },
{
    if width < 1 || height < 1 || scale.numer == 0 || scale.denom == 0 {
        return Err(ZoneError::InvalidArgument);
    }
    let denom = scale.denom as i64;
    assert(0 < width * denom <= 0x7fff_ffff * 0xffff && 0 < height * denom <= 0x7fff_ffff * 0xffff)
        by (nonlinear_arith)
        requires
            0 < width <= 0x7fff_ffff,
            0 < height <= 0x7fff_ffff,
            0 < denom <= 0xffff,
    ;
    let center_x = (width as i64) * denom;
    let center_y = (height as i64) * denom;
    let border_width = to_units(BORDER_WIDTH, scale);
    let shadow_sigma = to_units(SHADOW_SIGMA, scale);
    let shadow_offset = to_units(SHADOW_OFFSET, scale);
    let radius = center_y - border_width - shadow_offset - 3 * shadow_sigma;
    if radius <= 0 {
        return Err(ZoneError::InvalidArgument);
    }
    let disc = DiscSpec {
        unit: 2 * denom,
        center_x,
        center_y,
        radius,
        border_width,
        shadow_sigma,
        shadow_offset_x: shadow_offset,
        shadow_offset_y: shadow_offset,
        dpi_scale: scale,
    };
    proof {
        lemma_shadow_fits_wide_windows(disc, width as int, height as int, scale);
    }
    if height > width {
        return Err(ZoneError::BufferBounds);
    }
    Ok(disc)
}

/// The silhouettes of the four discs of a glyph. In each raster the alpha
/// of a pixel says how much of the pixel its disc covers; the colour bytes
/// are not read.
#[derive(Clone, Debug)]
pub struct ZoneCoverage {
    pub outer_shadow: PixelBuffer,
    pub outer: PixelBuffer,
    pub inner_shadow: PixelBuffer,
    pub inner: PixelBuffer,
}

impl ZoneCoverage {
    /// Each of the four is a well-formed raster.
    pub open spec fn wf(&self) -> bool {
        &&& self.outer_shadow.wf()
        &&& self.outer.wf()
        &&& self.inner_shadow.wf()
        &&& self.inner.wf()
    }

    /// Each of the four is `width` by `height` pixels.
    pub open spec fn is_sized(&self, width: int, height: int) -> bool {
        &&& self.outer_shadow@.width == width && self.outer_shadow@.height == height
        &&& self.outer@.width == width && self.outer@.height == height
        &&& self.inner_shadow@.width == width && self.inner_shadow@.height == height
        &&& self.inner@.width == width && self.inner@.height == height
    }

    fn has_size(&self, width: usize, height: usize) -> (b: bool)
        ensures
            b == self.is_sized(width as int, height as int),
    {
        self.outer_shadow.width() == width && self.outer_shadow.height() == height
            && self.outer.width() == width && self.outer.height() == height
            && self.inner_shadow.width() == width && self.inner_shadow.height() == height
            && self.inner.width() == width && self.inner.height() == height
    }
}

/// The soft shadow that a disc casts: its silhouette in the shadow colour,
/// with the alpha blurred.
pub open spec fn shadow_of(disc: Raster, weights: Seq<u32>) -> Raster {
    blurred(tinted(disc, shadow_color()), weights, BlurChannels::AlphaOnly)
}

/// The finished glyph, layer by layer.
///
/// The outer shadow is kept only outside the outer disc and laid over the
/// grey ring disc. The inner shadow is laid over that. What results is kept
/// only outside the inner disc and laid over the bright inner disc.
pub open spec fn zone_surface(coverage: ZoneCoverage, weights: Seq<u32>) -> Raster {
    let outer_mask = composed(
        Operator::Out,
        shadow_of(coverage.outer_shadow@, weights),
        tinted(coverage.outer@, solid_color()),
    );
    let ring = composed(Operator::Over, outer_mask, tinted(coverage.outer@, ring_color()));
    let shaded = composed(Operator::Over, shadow_of(coverage.inner_shadow@, weights), ring);
    let inner_mask = composed(Operator::Out, shaded, tinted(coverage.inner@, solid_color()));
    composed(Operator::Over, inner_mask, tinted(coverage.inner@, highlight_color()))
}

/// Number of taps on either side of the centre of the shadow blur at
/// `scale`: three spreads, rounded up to whole pixels.
pub open spec fn shadow_reach(scale: Ratio) -> int {
    scale.ceil_times(3 * SHADOW_SIGMA as int)
}

/// Why a glyph is refused, if it is: the geometry is refused (see
/// [`geometry_error`]), the kernel has not the reach of the shadow blur, or
/// a silhouette has not the size of the window (`InvalidArgument`).
pub open spec fn zone_error(
    width: int,
    height: int,
    scale: Ratio,
    weights: Seq<u32>,
    coverage: ZoneCoverage,
) -> Option<ZoneError> {
    if geometry_error(width, height, scale) is Some {
        geometry_error(width, height, scale)
    } else if weights.len() != 2 * shadow_reach(scale) + 1 || !coverage.is_sized(width, height) {
        Some(ZoneError::InvalidArgument)
    } else {
        None
    }
}

fn shadow(disc: &PixelBuffer, kernel: &BlurKernel) -> (result: PixelBuffer)
    requires
        disc.wf(),
        kernel.wf(),
    ensures
        result.wf(),
        result@ == shadow_of(disc@, kernel@),
        result@.same_size(disc@),
{
    let mut surface = fill(disc, Color { red: 0, green: 0, blue: 0, alpha: 128 });
    blur(&mut surface, kernel, BlurChannels::AlphaOnly);
    surface
}

/// Renders the zone glyph for a window of `width` by `height` pixels at
/// display scale `scale`.
///
/// `kernel` holds the weights of the shadow blur, whose spread is
/// `SHADOW_SIGMA` times the scale, and `coverage` the silhouettes of the
/// discs that [`DiscSpec::circles`] names for this window and scale. The
/// result has exactly the size of the window and no padding. Nothing is
/// rendered when the request is refused.
pub fn render_zone_surface(
    width: i32,
    height: i32,
    scale: Ratio,
    kernel: &BlurKernel,
    coverage: &ZoneCoverage,
) -> (result: Result<PixelBuffer, ZoneError>)
    requires
        kernel.wf(),
        coverage.wf(),
    ensures
        match result {
            Ok(surface) => {
                &&& zone_error(width as int, height as int, scale, kernel@, *coverage) is None
                &&& surface.wf()
                &&& surface@.width == width
                &&& surface@.height == height
                &&& surface@.stride == 4 * width
                &&& surface@ == zone_surface(*coverage, kernel@)
            },
            Err(e) => zone_error(width as int, height as int, scale, kernel@, *coverage) == Some(e),
        },
{
    match disc_spec(width, height, scale) {
        Ok(_) => {},
        Err(e) => {
            return Err(e);
        },
    }
    let reach = match scale.times_ceil(3 * SHADOW_SIGMA as u32) {
        Some(reach) => reach,
        None => {
            return Err(ZoneError::InvalidArgument);
        },
    };
    let taps = kernel.len();
    if taps % 2 != 1 || (taps / 2) as u64 != reach {
        return Err(ZoneError::InvalidArgument);
    }
    if !coverage.has_size(width as usize, height as usize) {
        return Err(ZoneError::InvalidArgument);
    }
    let outer_shadow = shadow(&coverage.outer_shadow, kernel);
    let outer_solid = fill(&coverage.outer, Color { red: 0, green: 0, blue: 0, alpha: 255 });
    let outer_mask = combine(Operator::Out, &outer_shadow, &outer_solid);
    let ring_disc = fill(&coverage.outer, Color { red: 204, green: 204, blue: 204, alpha: 128 });
    let ring = combine(Operator::Over, &outer_mask, &ring_disc);
    let inner_shadow = shadow(&coverage.inner_shadow, kernel);
    let shaded = combine(Operator::Over, &inner_shadow, &ring);
    let inner_solid = fill(&coverage.inner, Color { red: 0, green: 0, blue: 0, alpha: 255 });
    let inner_mask = combine(Operator::Out, &shaded, &inner_solid);
    let highlight = fill(&coverage.inner, Color { red: 255, green: 255, blue: 255, alpha: 230 });
    Ok(combine(Operator::Over, &inner_mask, &highlight))
}

/// Wherever the inner disc covers a pixel fully, the glyph shows the
/// highlight colour at its own opacity, whatever the shadows and the ring
/// are like.
pub proof fn lemma_inner_disc_is_highlight(
    coverage: ZoneCoverage,
    weights: Seq<u32>,
    width: int,
    height: int,
    x: int,
    y: int,
)
    requires
        coverage.wf(),
        coverage.is_sized(width, height),
        0 <= x < width,
        0 <= y < height,
        coverage.inner@.alpha(x, y) == 255,
    ensures
        zone_surface(coverage, weights).wf(),
        zone_surface(coverage, weights).width == width,
        zone_surface(coverage, weights).height == height,
        zone_surface(coverage, weights).pixel(x, y) == (Argb {
            alpha: 230,
            red: 230,
            green: 230,
            blue: 230,
        }),
{
    let inner = coverage.inner@;
    let outer_mask = composed(
        Operator::Out,
        shadow_of(coverage.outer_shadow@, weights),
        tinted(coverage.outer@, solid_color()),
    );
    let ring = composed(Operator::Over, outer_mask, tinted(coverage.outer@, ring_color()));
    let shaded = composed(Operator::Over, shadow_of(coverage.inner_shadow@, weights), ring);
    let solid = tinted(inner, solid_color());
    let inner_mask = composed(Operator::Out, shaded, solid);
    let highlight = tinted(inner, highlight_color());
    assert forall|c: int| 0 <= c < 4 implies #[trigger] zone_surface(coverage, weights).sample(
        x,
        y,
        c,
    ) == 230 by {
        lemma_tinted_sample(inner, solid_color(), x, y, 3);
        lemma_tinted_sample(inner, highlight_color(), x, y, c);
        lemma_tinted_sample(inner, highlight_color(), x, y, 3);
        lemma_composed_sample(Operator::Out, shaded, solid, x, y, c);
        lemma_composed_sample(Operator::Out, shaded, solid, x, y, 3);
        lemma_composed_sample(Operator::Over, inner_mask, highlight, x, y, c);
        lemma_scaled_bounds(shaded.sample(x, y, c) as int, 0);
        lemma_scaled_bounds(shaded.sample(x, y, 3) as int, 0);
    }
    lemma_tinted_sample(inner, highlight_color(), x, y, 0);
    lemma_composed_sample(Operator::Over, inner_mask, highlight, x, y, 0);
}

/// A disc casts no shadow on a pixel if its silhouette is clear of every
/// pixel within the kernel's reach of that pixel.
pub proof fn lemma_shadow_keeps_clear(disc: Raster, weights: Seq<u32>, x: int, y: int, c: int)
    requires
        disc.wf(),
        kernel_wf(weights),
        disc.contains(x, y),
        0 <= c < 4,
        forall|u: int, v: int|
            disc.contains(u, v) && x - weights.len() / 2 <= u <= x + weights.len() / 2 && y
                - weights.len() / 2 <= v <= y + weights.len() / 2 ==> disc.alpha(u, v) == 0,
    ensures
        shadow_of(disc, weights).sample(x, y, c) == 0,
{
    let dark = tinted(disc, shadow_color());
    lemma_tinted_clear(disc, shadow_color(), x, y, c);
    assert forall|u: int, v: int|
        dark.contains(u, v) && x - weights.len() / 2 <= u <= x + weights.len() / 2 && y
            - weights.len() / 2 <= v <= y + weights.len() / 2 implies dark.alpha(u, v) == 0 by {
        lemma_tinted_clear(disc, shadow_color(), u, v, 3);
    }
    if c == 3 {
        lemma_blur_keeps_clear(dark, weights, BlurChannels::AlphaOnly, x, y);
    } else {
        lemma_blur_keeps_unselected(dark, weights, BlurChannels::AlphaOnly, x, y, c);
    }
}

/// The glyph is fully transparent wherever neither disc covers the pixel
/// and neither shadow silhouette comes within the kernel's reach of it.
pub proof fn lemma_clear_of_discs_is_transparent(
    coverage: ZoneCoverage,
    weights: Seq<u32>,
    width: int,
    height: int,
    x: int,
    y: int,
)
    requires
        coverage.wf(),
        coverage.is_sized(width, height),
        kernel_wf(weights),
        0 <= x < width,
        0 <= y < height,
        coverage.outer@.alpha(x, y) == 0,
        coverage.inner@.alpha(x, y) == 0,
        forall|u: int, v: int|
            0 <= u < width && 0 <= v < height && x - weights.len() / 2 <= u <= x + weights.len()
                / 2 && y - weights.len() / 2 <= v <= y + weights.len() / 2
                ==> coverage.outer_shadow@.alpha(u, v) == 0,
        forall|u: int, v: int|
            0 <= u < width && 0 <= v < height && x - weights.len() / 2 <= u <= x + weights.len()
                / 2 && y - weights.len() / 2 <= v <= y + weights.len() / 2
                ==> coverage.inner_shadow@.alpha(u, v) == 0,
    ensures
        zone_surface(coverage, weights).pixel(x, y) == (Argb {
            alpha: 0,
            red: 0,
            green: 0,
            blue: 0,
        }),
{
    let outer_shadow = shadow_of(coverage.outer_shadow@, weights);
    let outer_solid = tinted(coverage.outer@, solid_color());
    let outer_mask = composed(Operator::Out, outer_shadow, outer_solid);
    let ring_disc = tinted(coverage.outer@, ring_color());
    let ring = composed(Operator::Over, outer_mask, ring_disc);
    let inner_shadow = shadow_of(coverage.inner_shadow@, weights);
    let shaded = composed(Operator::Over, inner_shadow, ring);
    let inner_solid = tinted(coverage.inner@, solid_color());
    let inner_mask = composed(Operator::Out, shaded, inner_solid);
    let highlight = tinted(coverage.inner@, highlight_color());
    let glyph = composed(Operator::Over, inner_mask, highlight);
    assert forall|c: int| 0 <= c < 4 implies #[trigger] glyph.sample(x, y, c) == 0 by {
        lemma_zone_channel_clear(coverage, weights, width, height, x, y, c);
    }
}

proof fn lemma_zone_channel_clear(
    coverage: ZoneCoverage,
    weights: Seq<u32>,
    width: int,
    height: int,
    x: int,
    y: int,
    c: int,
)
    requires
        coverage.wf(),
        coverage.is_sized(width, height),
        kernel_wf(weights),
        0 <= x < width,
        0 <= y < height,
        0 <= c < 4,
        coverage.outer@.alpha(x, y) == 0,
        coverage.inner@.alpha(x, y) == 0,
        forall|u: int, v: int|
            0 <= u < width && 0 <= v < height && x - weights.len() / 2 <= u <= x + weights.len()
                / 2 && y - weights.len() / 2 <= v <= y + weights.len() / 2
                ==> coverage.outer_shadow@.alpha(u, v) == 0,
        forall|u: int, v: int|
            0 <= u < width && 0 <= v < height && x - weights.len() / 2 <= u <= x + weights.len()
                / 2 && y - weights.len() / 2 <= v <= y + weights.len() / 2
                ==> coverage.inner_shadow@.alpha(u, v) == 0,
    ensures
        zone_surface(coverage, weights).sample(x, y, c) == 0,
{
    let outer_shadow = shadow_of(coverage.outer_shadow@, weights);
    let outer_solid = tinted(coverage.outer@, solid_color());
    let outer_mask = composed(Operator::Out, outer_shadow, outer_solid);
    let ring_disc = tinted(coverage.outer@, ring_color());
    let ring = composed(Operator::Over, outer_mask, ring_disc);
    let inner_shadow = shadow_of(coverage.inner_shadow@, weights);
    let shaded = composed(Operator::Over, inner_shadow, ring);
    let inner_solid = tinted(coverage.inner@, solid_color());
    let inner_mask = composed(Operator::Out, shaded, inner_solid);
    let highlight = tinted(coverage.inner@, highlight_color());

    lemma_shadow_keeps_clear(coverage.outer_shadow@, weights, x, y, c);
    lemma_shadow_keeps_clear(coverage.outer_shadow@, weights, x, y, 3);
    lemma_shadow_keeps_clear(coverage.inner_shadow@, weights, x, y, c);
    lemma_shadow_keeps_clear(coverage.inner_shadow@, weights, x, y, 3);

    lemma_tinted_sample(coverage.outer@, solid_color(), x, y, c);
    lemma_composed_clear(Operator::Out, outer_shadow, outer_solid, x, y, c);
    lemma_composed_clear(Operator::Out, outer_shadow, outer_solid, x, y, 3);

    lemma_tinted_clear(coverage.outer@, ring_color(), x, y, c);
    lemma_tinted_clear(coverage.outer@, ring_color(), x, y, 3);
    lemma_composed_clear(Operator::Over, outer_mask, ring_disc, x, y, c);
    lemma_composed_clear(Operator::Over, outer_mask, ring_disc, x, y, 3);

    lemma_composed_clear(Operator::Over, inner_shadow, ring, x, y, c);
    lemma_composed_clear(Operator::Over, inner_shadow, ring, x, y, 3);

    lemma_tinted_sample(coverage.inner@, solid_color(), x, y, c);
    lemma_composed_clear(Operator::Out, shaded, inner_solid, x, y, c);
    lemma_composed_clear(Operator::Out, shaded, inner_solid, x, y, 3);

    lemma_tinted_clear(coverage.inner@, highlight_color(), x, y, c);
    lemma_composed_clear(Operator::Over, inner_mask, highlight, x, y, c);
}

} // verus!
