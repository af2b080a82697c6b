//! The frame-driven animator of the icon ring.
//!
//! Dragging something onto the zone shrinks the main glyph away and grows a
//! ring of icons (direction in); leaving or dropping does the reverse
//! (direction out). A run lasts [`ANIMATION_STEPS`] ticks. On each tick every
//! size moves towards its target by the remaining distance divided by the
//! number of ticks left, so a run that is not interrupted ends exactly on
//! target. While more than [`SETTLE_STEPS`] ticks are left, the growing side
//! aims a little beyond its target, which makes it overshoot and settle.
//!
//! An icon is centred on its place on the ring of the window as the window
//! is at the tick. Finding the places takes a cosine and a sine, so the host
//! hands them in with each tick, cut to sixths of a pixel; the controller
//! checks that each lies on the ring and puts the icon's corner half a size
//! before it, rounded towards zero.
//!
//! The controller does no waiting of its own. The host calls
//! [`AnimationController::tick`] every [`TICK_MILLIS`] milliseconds with the
//! handle it was given and stops when told that the run is complete. A
//! handle whose run was cancelled or replaced does nothing any more.

use vstd::prelude::*;
use crate::error::ZoneError;
use crate::layout::RING_UNIT;
use crate::ratio::{lemma_quotient_bounds, toward_zero, Ratio};

verus! {

/// Number of ticks in a run.
pub const ANIMATION_STEPS: u32 = 10;

/// Number of ticks at the end of a run that aim at the target itself.
pub const SETTLE_STEPS: u32 = 3;

/// How far beyond the window width the main glyph aims while it overshoots,
/// in pixels at scale one.
pub const MAIN_OVERSHOOT: u32 = 50;

/// How far beyond its final size an icon aims while it overshoots, in
/// pixels at scale one.
pub const ICON_OVERSHOOT: u32 = 20;

/// Time between two ticks, in milliseconds.
pub const TICK_MILLIS: u32 = 16;

/// How far from the ring an anchor may lie, in ring units: an anchor is a
/// place on the ring with its coordinates cut to whole units.
pub const RING_SLACK: i64 = 2;

/// Which way a run goes.
#[derive(Clone, Copy, Debug, PartialEq, Eq, Structural)]
pub enum Direction {
    /// The icons grow and the main glyph shrinks.
    In,
    /// The icons shrink and the main glyph grows.
    Out,
}

/// What a tick tells the host.
#[derive(Clone, Copy, Debug, PartialEq, Eq, Structural)]
pub enum TickOutcome {
    /// Call again after the next interval.
    Continue,
    /// The run is over, or the handle is no longer the current one. Do not
    /// call again.
    Complete,
}

/// A place in the window, in units of which [`RING_UNIT`] make a pixel.
#[derive(Clone, Copy, Debug, PartialEq, Eq, Structural)]
pub struct Place {
    pub x: i64,
    pub y: i64,
}

/// Where an icon is, how large it is, and whether it is shown. `x` and `y`
/// name the top left corner; `size` is the diameter.
#[derive(Clone, Copy, Debug, PartialEq, Eq, Structural)]
pub struct IconState {
    pub x: i32,
    pub y: i32,
    pub size: i32,
    pub visible: bool,
}

/// A run in progress.
#[derive(Clone, Copy, Debug, PartialEq, Eq, Structural)]
pub struct AnimationRun {
    pub direction: Direction,
    /// Ticks left, counting down from [`ANIMATION_STEPS`].
    pub step_counter: u32,
    /// The generation of the handle that drives this run.
    pub generation: u64,
}

/// Names one run of one controller.
#[derive(Clone, Copy, Debug, PartialEq, Eq, Structural)]
pub struct AnimationHandle {
    pub generation: u64,
}

/// What the host sees at the moment of a tick.
#[derive(Clone, Debug)]
pub struct Frame {
    pub window_width: i32,
    pub window_height: i32,
    pub scale: Ratio,
    /// The place of each icon on the ring of this window, one per icon: the
    /// point on which the icon is centred.
    pub anchors: Vec<Place>,
}

/// The mathematical content of an [`AnimationController`].
pub struct ControllerState {
    pub main_icon: IconState,
    pub icons: Seq<IconState>,
    /// Whether a drag is over the zone.
    pub drag_in: bool,
    /// The current run; `None` when idle.
    pub run: Option<AnimationRun>,
    /// The generation of the handle given out last.
    pub generation: u64,
}

/// A size as it counts for easing: a negative size counts as zero.
pub open spec fn current_size(size: int) -> int {
    if size > 0 {
        size
    } else {
        0
    }
}

/// The size after a tick with `steps` ticks left: the current size moved
/// towards `target` by the remaining distance divided by `steps`.
pub open spec fn eased(size: int, target: int, steps: int) -> int {
    current_size(size) + toward_zero(target - current_size(size), steps)
}

/// What a growing side aims beyond its target with `steps` ticks left.
pub open spec fn overshoot(pixels: int, scale: Ratio, steps: int) -> int {
    if steps > SETTLE_STEPS {
        scale.floor_times(pixels)
    } else {
        0
    }
}

/// The size the main glyph aims at.
pub open spec fn main_target(direction: Direction, frame: Frame, steps: int) -> int {
    match direction {
        Direction::In => 0,
        Direction::Out => frame.window_width + overshoot(MAIN_OVERSHOOT as int, frame.scale, steps),
    }
}

/// The size every icon aims at.
pub open spec fn icon_target(direction: Direction, frame: Frame, steps: int) -> int {
    match direction {
        Direction::In => frame.window_width / 3 + overshoot(
            ICON_OVERSHOOT as int,
            frame.scale,
            steps,
        ),
        Direction::Out => 0,
    }
}

/// The main glyph after a tick: eased towards its target and centred in the
/// window.
pub open spec fn main_after(icon: IconState, direction: Direction, frame: Frame, steps: int) -> IconState {
    let size = eased(icon.size as int, main_target(direction, frame, steps), steps);
    IconState {
        x: (frame.window_width / 2 - size / 2) as i32,
        y: (frame.window_height / 2 - size / 2) as i32,
        size: size as i32,
        visible: icon.visible,
    }
}

/// The corner coordinate, in whole pixels, of an icon of diameter `size`
/// pixels that is centred on the coordinate `anchor`, which is in ring
/// units: the anchor less half the size, rounded towards zero.
pub open spec fn corner(anchor: int, size: int) -> int {
    toward_zero(anchor - (RING_UNIT / 2) * size, RING_UNIT as int)
}

/// An icon after a tick: eased towards its target and centred on its
/// anchor. It is shown, except that the last tick of a run out hides it.
pub open spec fn icon_after(
    icon: IconState,
    anchor: Place,
    direction: Direction,
    frame: Frame,
    steps: int,
) -> IconState {
    let size = eased(icon.size as int, icon_target(direction, frame, steps), steps);
    IconState {
        x: corner(anchor.x as int, size) as i32,
        y: corner(anchor.y as int, size) as i32,
        size: size as i32,
        visible: direction == Direction::In || steps > 1,
    }
}

/// Whether `place` lies on the icon ring of a window of `width` by `height`
/// pixels, give or take [`RING_SLACK`]: its distance from the middle of the
/// window is a third of the width.
pub open spec fn on_ring(place: Place, width: int, height: int) -> bool {
    let dx = place.x - (RING_UNIT / 2) * width;
    let dy = place.y - (RING_UNIT / 2) * height;
    let radius = (RING_UNIT / 3) * width;
    let distance_squared = dx * dx + dy * dy;
    &&& distance_squared <= (radius + RING_SLACK) * (radius + RING_SLACK)
    &&& radius <= RING_SLACK || (radius - RING_SLACK) * (radius - RING_SLACK) <= distance_squared
}

/// Whether a frame can drive a tick of a controller with `icon_count`
/// icons: the window has no negative side, the scale denotes a number, the
/// main glyph's largest target is a size, and there is one anchor per icon,
/// each on the icon ring of this window.
pub open spec fn frame_ok(frame: Frame, icon_count: int) -> bool {
    &&& frame.window_width >= 0
    &&& frame.window_height >= 0
    &&& frame.scale.is_valid()
    &&& frame.window_width + frame.scale.floor_times(MAIN_OVERSHOOT as int) <= i32::MAX
    &&& frame.anchors@.len() == icon_count
    &&& forall|i: int|
        0 <= i < frame.anchors@.len() ==> on_ring(
            #[trigger] frame.anchors@[i],
            frame.window_width as int,
            frame.window_height as int,
        )
}

impl ControllerState {
    /// At least one icon, and a run, if there is one, that belongs to the
    /// latest handle and has ticks left.
    pub open spec fn wf(self) -> bool {
        &&& self.icons.len() >= 1
        &&& self.run matches Some(run) ==> {
            &&& run.generation == self.generation
            &&& 1 <= run.step_counter <= ANIMATION_STEPS
        }
    }

    /// Whether `handle` names the run in progress.
    pub open spec fn is_current(self, handle: AnimationHandle) -> bool {
        self.run matches Some(run) && run.generation == handle.generation
    }

    /// The state in which a fresh run in `direction` has replaced whatever
    /// ran before. The icons are as they were.
    pub open spec fn started(self, direction: Direction) -> ControllerState {
        let generation = next_generation(self.generation);
        ControllerState {
            drag_in: direction == Direction::In,
            run: Some(AnimationRun { direction, step_counter: ANIMATION_STEPS, generation }),
            generation,
            ..self
        }
    }

    /// The state after `handle` was cancelled: idle if it named the run in
    /// progress, unchanged otherwise.
    pub open spec fn cancelled(self, handle: AnimationHandle) -> ControllerState {
        if self.is_current(handle) {
            ControllerState { run: None, ..self }
        } else {
            self
        }
    }

    /// The state after a tick of `handle` at `frame`. A handle that is not
    /// current and a frame that cannot drive a tick change nothing.
    pub open spec fn ticked(self, handle: AnimationHandle, frame: Frame) -> ControllerState {
        if self.is_current(handle) && frame_ok(frame, self.icons.len() as int) {
            let run = self.run->0;
            let steps = run.step_counter as int;
            ControllerState {
                main_icon: main_after(self.main_icon, run.direction, frame, steps),
                icons: Seq::new(
                    self.icons.len(),
                    |i: int| icon_after(self.icons[i], frame.anchors@[i], run.direction, frame, steps),
                ),
                run: if steps > 1 {
                    Some(AnimationRun { step_counter: (steps - 1) as u32, ..run })
                } else {
                    None
                },
                ..self
            }
        } else {
            self
        }
    }

    /// What a tick of `handle` at `frame` returns.
    pub open spec fn tick_result(self, handle: AnimationHandle, frame: Frame) -> Result<
        TickOutcome,
        ZoneError,
    > {
        if !self.is_current(handle) {
            Ok(TickOutcome::Complete)
        } else if !frame_ok(frame, self.icons.len() as int) {
            Err(ZoneError::InvalidArgument)
        } else if (self.run->0).step_counter > 1 {
            Ok(TickOutcome::Continue)
        } else {
            Ok(TickOutcome::Complete)
        }
    }

    /// The state after one tick of `handle` for each of `frames`, in order.
    pub open spec fn ticked_through(self, handle: AnimationHandle, frames: Seq<Frame>) -> ControllerState
        decreases frames.len(),
    {
        if frames.len() == 0 {
            self
        } else {
            self.ticked_through(handle, frames.drop_last()).ticked(handle, frames.last())
        }
    }
}

/// The generation after `generation`; the count starts over when it runs
/// out.
pub open spec fn next_generation(generation: u64) -> u64 {
    if generation == u64::MAX {
        0
    } else {
        (generation + 1) as u64
    }
}

/// Easing lands between where it starts and where it aims, and with one
/// tick left it lands on the target.
pub proof fn lemma_eased_between(size: int, target: int, steps: int)
    requires
        target >= 0,
        steps >= 1,
    ensures
        current_size(size) <= eased(size, target, steps) <= target || target <= eased(
            size,
            target,
            steps,
        ) <= current_size(size),
        steps == 1 ==> eased(size, target, steps) == target,
{
    let now = current_size(size);
    let gap = target - now;
    if gap >= 0 {
        lemma_quotient_bounds(gap, steps);
    } else {
        lemma_quotient_bounds(-gap, steps);
    }
}

/// Owns the icons and the run that moves them.
#[derive(Clone, Debug)]
pub struct AnimationController {
    main_icon: IconState,
    icons: Vec<IconState>,
    drag_in: bool,
    run: Option<AnimationRun>,
    generation: u64,
}

impl View for AnimationController {
    type V = ControllerState;

    closed spec fn view(&self) -> ControllerState {
        ControllerState {
            main_icon: self.main_icon,
            icons: self.icons@,
            drag_in: self.drag_in,
            run: self.run,
            generation: self.generation,
        }
    }
}

fn ease(size: i32, target: i32, steps: u32) -> (r: i32)
    requires
        target >= 0,
        1 <= steps,
    ensures
        r == eased(size as int, target as int, steps as int),
        r >= 0,
{
    let now: i64 = if size > 0 {
        size as i64
    } else {
        0
    };
    proof {
        lemma_eased_between(size as int, target as int, steps as int);
    }
    let gap: i64 = target as i64 - now;
    let moved: i64 = now + gap / (steps as i64);
    moved as i32
}

fn aim_beyond(pixels: u32, scale: Ratio, steps: u32) -> (r: i32)
    requires
        scale.is_valid(),
        pixels <= 0x7fff,
    ensures
        r == overshoot(pixels as int, scale, steps as int),
        0 <= r <= 0x7fff_ffff,
{
    if steps > SETTLE_STEPS {
        assert(0 <= pixels * scale.numer <= 0x7fff * 0xffff) by (nonlinear_arith)
            requires
                0 <= pixels <= 0x7fff,
                0 <= scale.numer <= 0xffff,
        ;
        proof {
            lemma_quotient_bounds(pixels * scale.numer, scale.denom as int);
        }
        match scale.times_floor(pixels) {
            Some(extra) => extra as i32,
            None => 0,
        }
    } else {
        0
    }
}

/// An anchor on the ring of a window lies within the ring's bounding square,
/// give or take the slack.
pub proof fn lemma_on_ring_bounds(place: Place, width: int, height: int)
    requires
        width >= 0,
        on_ring(place, width, height),
    ensures
        width - RING_SLACK <= place.x <= 5 * width + RING_SLACK,
        3 * height - 2 * width - RING_SLACK <= place.y <= 3 * height + 2 * width + RING_SLACK,
{
    let dx = place.x - 3 * width;
    let dy = place.y - 3 * height;
    let far = 2 * width + RING_SLACK;
    assert(-far <= dx <= far && -far <= dy <= far) by (nonlinear_arith)
        requires
            far >= 0,
            dx * dx + dy * dy <= far * far,
    ;
}

/// The corner of an icon that is centred on an anchor of the ring is a
/// coordinate.
pub proof fn lemma_corner_fits(place: Place, width: int, height: int, size: int)
    requires
        0 <= width <= i32::MAX,
        0 <= height <= i32::MAX,
        0 <= size <= i32::MAX,
        on_ring(place, width, height),
    ensures
        i32::MIN <= corner(place.x as int, size) <= i32::MAX,
        i32::MIN <= corner(place.y as int, size) <= i32::MAX,
{
    lemma_on_ring_bounds(place, width, height);
    assert(3 * height - 2 * width - 2 <= place.y <= 3 * height + 2 * width + 2);
}

fn lies_on_ring(place: Place, width: i32, height: i32) -> (b: bool)
    requires
        width >= 0,
        height >= 0,
    ensures
        b == on_ring(place, width as int, height as int),
{
    let radius: i128 = 2 * (width as i128);
    let dx: i128 = place.x as i128 - 3 * (width as i128);
    let dy: i128 = place.y as i128 - 3 * (height as i128);
    let far: i128 = radius + RING_SLACK as i128;
    if dx > far || dx < -far || dy > far || dy < -far {
        assert(dx * dx + dy * dy > far * far) by (nonlinear_arith)
            requires
                far >= 0,
                dx > far || dx < -far || dy > far || dy < -far,
        ;
        return false;
    }
    assert(0 <= dx * dx <= far * far && 0 <= dy * dy <= far * far && far * far
        <= 0x1_0000_0002 * 0x1_0000_0002) by (nonlinear_arith)
        requires
            -far <= dx <= far,
            -far <= dy <= far,
            0 <= far <= 0x1_0000_0002,
    ;
    let distance_squared: i128 = dx * dx + dy * dy;
    if distance_squared > far * far {
        return false;
    }
    if radius <= RING_SLACK as i128 {
        return true;
    }
    let near: i128 = radius - RING_SLACK as i128;
    assert(0 <= near * near <= far * far) by (nonlinear_arith)
        requires
            0 <= near <= far,
    ;
    near * near <= distance_squared
}

fn corner_of(anchor: i64, size: i32) -> (r: i32)
    requires
        size >= 0,
        i32::MIN <= corner(anchor as int, size as int) <= i32::MAX,
        -0x8_0000_0000 <= anchor <= 0x8_0000_0000,
    ensures
        r == corner(anchor as int, size as int),
{
    ((anchor - 3 * (size as i64)) / RING_UNIT) as i32
}

impl Frame {
    /// Whether this frame can drive a tick of a controller with
    /// `icon_count` icons.
    pub fn fits(&self, icon_count: usize) -> (b: bool)
        ensures
            b == frame_ok(*self, icon_count as int),
    {
        if self.window_width < 0 || self.window_height < 0 || self.scale.denom == 0 {
            return false;
        }
        let beyond = aim_beyond(MAIN_OVERSHOOT, self.scale, ANIMATION_STEPS);
        if self.window_width as i64 + beyond as i64 > i32::MAX as i64 {
            return false;
        }
        if self.anchors.len() != icon_count {
            return false;
        }
        let mut i: usize = 0;
        while i < self.anchors.len()
            invariant
                0 <= i <= self.anchors@.len(),
                self.window_width >= 0,
                self.window_height >= 0,
                forall|j: int|
                    0 <= j < i ==> on_ring(
                        #[trigger] self.anchors@[j],
                        self.window_width as int,
                        self.window_height as int,
                    ),
            decreases self.anchors@.len() - i,
        {
            if !lies_on_ring(self.anchors[i], self.window_width, self.window_height) {
                return false;
            }
            i = i + 1;
        }
        true
    }
}

impl AnimationController {
    /// The representation invariant.
    pub open spec fn wf(&self) -> bool {
        self@.wf()
    }

    /// A controller at rest for `icon_count` icons in a window
    /// `window_width` pixels wide: the main glyph fills the window and is
    /// shown, the icons have no size and are hidden, and no drag is over the
    /// zone.
    ///
    /// Fails with `InvalidArgument` when there are no icons or the width is
    /// negative.
    pub fn new(icon_count: usize, window_width: i32) -> (result: Result<
        AnimationController,
        ZoneError,
    >)
        ensures
            result is Ok <==> icon_count >= 1 && window_width >= 0,
            result matches Ok(controller) ==> {
                &&& controller.wf()
                &&& controller@.main_icon == (IconState {
                    x: 0,
                    y: 0,
                    size: window_width,
                    visible: true,
                })
                &&& controller@.icons.len() == icon_count
                &&& forall|i: int|
                    0 <= i < icon_count ==> controller@.icons[i] == (IconState {
                        x: 0,
                        y: 0,
                        size: 0,
                        visible: false,
                    })
                &&& !controller@.drag_in
                &&& controller@.run is None
                &&& controller@.generation == 0
            },
            result matches Err(e) ==> e == ZoneError::InvalidArgument,
    {
        if icon_count == 0 || window_width < 0 {
            return Err(ZoneError::InvalidArgument);
        }
        let mut icons: Vec<IconState> = Vec::new();
        let mut i: usize = 0;
        while i < icon_count
            invariant
                0 <= i <= icon_count,
                icons@.len() == i,
                forall|j: int|
                    0 <= j < i ==> icons@[j] == (IconState { x: 0, y: 0, size: 0, visible: false }),
            decreases icon_count - i,
        {
            icons.push(IconState { x: 0, y: 0, size: 0, visible: false });
            i = i + 1;
        }
        Ok(
            AnimationController {
                main_icon: IconState { x: 0, y: 0, size: window_width, visible: true },
                icons,
                drag_in: false,
                run: None,
                generation: 0,
            },
        )
    }

    /// The main glyph.
    pub fn main_icon(&self) -> (icon: IconState)
        ensures
            icon == self@.main_icon,
    {
        self.main_icon
    }

    /// The icons of the ring, in ring order.
    pub fn icons(&self) -> (icons: &Vec<IconState>)
        ensures
            icons@ == self@.icons,
    {
        &self.icons
    }

    /// Whether a drag is over the zone.
    pub fn drag_in(&self) -> (b: bool)
        ensures
            b == self@.drag_in,
    {
        self.drag_in
    }

    /// The run in progress, if any.
    pub fn run(&self) -> (run: Option<AnimationRun>)
        ensures
            run == self@.run,
    {
        self.run
    }

    /// Whether `handle` names the run in progress.
    pub fn is_current(&self, handle: AnimationHandle) -> (b: bool)
        ensures
            b == self@.is_current(handle),
    {
        match self.run {
            Some(run) => run.generation == handle.generation,
            None => false,
        }
    }

    /// Starts a run in `direction`, in place of any run in progress, and
    /// returns its handle. Every handle given out before is stale from now
    /// on. The icons move only when the run is ticked.
    pub fn start_animation(&mut self, direction: Direction) -> (handle: AnimationHandle)
        requires
            old(self).wf(),
        ensures
            final(self).wf(),
            final(self)@ == old(self)@.started(direction),
            final(self)@.is_current(handle),
            handle.generation == final(self)@.generation,
    {
        let generation = if self.generation == u64::MAX {
            0
        } else {
            self.generation + 1
        };
        self.generation = generation;
        self.drag_in = match direction {
            Direction::In => true,
            Direction::Out => false,
        };
        self.run = Some(AnimationRun { direction, step_counter: ANIMATION_STEPS, generation });
        AnimationHandle { generation }
    }

    /// A drag has come over the zone. Starts a run in, unless a drag is
    /// over the zone already.
    pub fn drag_enter(&mut self) -> (handle: Option<AnimationHandle>)
        requires
            old(self).wf(),
        ensures
            final(self).wf(),
            old(self)@.drag_in ==> handle is None && final(self)@ == old(self)@,
            !old(self)@.drag_in ==> {
                &&& final(self)@ == old(self)@.started(Direction::In)
                &&& handle matches Some(h) && final(self)@.is_current(h)
            },
    {
        if self.drag_in {
            None
        } else {
            Some(self.start_animation(Direction::In))
        }
    }

    /// A drag has left. Starts a run out if it left the zone as a whole
    /// (`from_root`) and was over it; does nothing otherwise.
    pub fn drag_leave(&mut self, from_root: bool) -> (handle: Option<AnimationHandle>)
        requires
            old(self).wf(),
        ensures
            final(self).wf(),
            !(from_root && old(self)@.drag_in) ==> handle is None && final(self)@ == old(self)@,
            from_root && old(self)@.drag_in ==> {
                &&& final(self)@ == old(self)@.started(Direction::Out)
                &&& handle matches Some(h) && final(self)@.is_current(h)
            },
    {
        if from_root && self.drag_in {
            Some(self.start_animation(Direction::Out))
        } else {
            None
        }
    }

    /// Something was dropped on an icon. Starts a run out.
    pub fn drop_received(&mut self) -> (handle: AnimationHandle)
        requires
            old(self).wf(),
        ensures
            final(self).wf(),
            final(self)@ == old(self)@.started(Direction::Out),
            final(self)@.is_current(handle),
    {
        self.start_animation(Direction::Out)
    }

    /// Cancels the run that `handle` names. A stale handle cancels nothing.
    /// No icon is touched.
    pub fn cancel(&mut self, handle: AnimationHandle)
        requires
            old(self).wf(),
        ensures
            final(self).wf(),
            final(self)@ == old(self)@.cancelled(handle),
            !final(self)@.is_current(handle),
    {
        if self.is_current(handle) {
            self.run = None;
        }
    }

    /// Advances the run that `handle` names by one tick at `frame`.
    ///
    /// A handle that is not current changes nothing and reports
    /// `Complete`. A frame that cannot drive a tick (see [`frame_ok`])
    /// changes nothing and fails with `InvalidArgument`. Otherwise every
    /// icon takes its next size and place, and the run reports `Complete`
    /// on its last tick and `Continue` before.
    pub fn tick(&mut self, handle: AnimationHandle, frame: &Frame) -> (result: Result<
        TickOutcome,
        ZoneError,
    >)
        requires
            old(self).wf(),
        ensures
            final(self).wf(),
            final(self)@ == old(self)@.ticked(handle, *frame),
            result == old(self)@.tick_result(handle, *frame),
    {
        let run = match self.run {
            Some(run) => run,
            None => {
                return Ok(TickOutcome::Complete);
            },
        };
        if run.generation != handle.generation {
            return Ok(TickOutcome::Complete);
        }
        if !frame.fits(self.icons.len()) {
            return Err(ZoneError::InvalidArgument);
        }
        let steps = run.step_counter;
        let direction = run.direction;
        let width = frame.window_width;
        let height = frame.window_height;
        let main_goal: i32 = match direction {
            Direction::In => 0,
            Direction::Out => width + aim_beyond(MAIN_OVERSHOOT, frame.scale, steps),
        };
        let icon_goal: i32 = match direction {
            Direction::In => width / 3 + aim_beyond(ICON_OVERSHOOT, frame.scale, steps),
            Direction::Out => 0,
        };
        let main_size = ease(self.main_icon.size, main_goal, steps);
        let main_icon = IconState {
            x: width / 2 - main_size / 2,
            y: height / 2 - main_size / 2,
            size: main_size,
            visible: self.main_icon.visible,
        };
        let shown = match direction {
            Direction::In => true,
            Direction::Out => steps > 1,
        };
        let count = self.icons.len();
        let ghost before = self@;
        let mut icons: Vec<IconState> = Vec::with_capacity(count);
        let mut i: usize = 0;
        while i < count
            invariant
                0 <= i <= count,
                count == self.icons@.len(),
                count == frame.anchors@.len(),
                self@ == before,
                icons@.len() == i,
                icon_goal >= 0,
                steps >= 1,
                icon_goal == icon_target(direction, *frame, steps as int),
                shown == (direction == Direction::In || steps > 1),
                width == frame.window_width,
                height == frame.window_height,
                0 <= width,
                0 <= height,
                forall|j: int|
                    0 <= j < frame.anchors@.len() ==> on_ring(
                        #[trigger] frame.anchors@[j],
                        frame.window_width as int,
                        frame.window_height as int,
                    ),
                forall|j: int|
                    0 <= j < i ==> icons@[j] == icon_after(
                        before.icons[j],
                        frame.anchors@[j],
                        direction,
                        *frame,
                        steps as int,
                    ),
            decreases count - i,
        {
            let size = ease(self.icons[i].size, icon_goal, steps);
            let anchor = frame.anchors[i];
            proof {
                lemma_on_ring_bounds(anchor, width as int, height as int);
                lemma_corner_fits(anchor, width as int, height as int, size as int);
            }
            icons.push(
                IconState {
                    x: corner_of(anchor.x, size),
                    y: corner_of(anchor.y, size),
                    size,
                    visible: shown,
                },
            );
            i = i + 1;
        }
        self.main_icon = main_icon;
        self.icons = icons;
        if steps > 1 {
            self.run = Some(
                AnimationRun { direction, step_counter: steps - 1, generation: run.generation },
            );
            assert(self@.icons =~= before.ticked(handle, *frame).icons);
            Ok(TickOutcome::Continue)
        } else {
            self.run = None;
            assert(self@.icons =~= before.ticked(handle, *frame).icons);
            Ok(TickOutcome::Complete)
        }
    }
}

/// While a run is ticked with frames that fit, it counts down by one per
/// tick and keeps its icons in number.
pub proof fn lemma_run_counts_down(
    state: ControllerState,
    direction: Direction,
    frames: Seq<Frame>,
    n: int,
)
    requires
        state.wf(),
        0 <= n < ANIMATION_STEPS,
        n <= frames.len(),
        forall|i: int| 0 <= i < frames.len() ==> frame_ok(#[trigger] frames[i], state.icons.len() as int),
    ensures
        ({
            let begun = state.started(direction);
            let handle = AnimationHandle { generation: begun.generation };
            let reached = begun.ticked_through(handle, frames.take(n));
            &&& reached.wf()
            &&& reached.icons.len() == state.icons.len()
            &&& reached.generation == begun.generation
            &&& reached.run == Some(
                AnimationRun {
                    direction,
                    step_counter: (ANIMATION_STEPS - n) as u32,
                    generation: begun.generation,
                },
            )
        }),
    decreases n,
{
    if n > 0 {
        lemma_run_counts_down(state, direction, frames, n - 1);
        assert(frames.take(n).drop_last() =~= frames.take(n - 1));
    }
}

/// A run that is ticked [`ANIMATION_STEPS`] times, with frames that fit and
/// without being cancelled or replaced, reports `Continue` on every tick but
/// the last and `Complete` on the last; it is then over, and the main glyph
/// and every icon have exactly the size that the last frame asks for.
pub proof fn lemma_run_ends_on_target(state: ControllerState, direction: Direction, frames: Seq<Frame>)
    requires
        state.wf(),
        frames.len() == ANIMATION_STEPS,
        forall|i: int| 0 <= i < frames.len() ==> frame_ok(#[trigger] frames[i], state.icons.len() as int),
    ensures
        ({
            let begun = state.started(direction);
            let handle = AnimationHandle { generation: begun.generation };
            let done = begun.ticked_through(handle, frames);
            &&& forall|n: int|
                0 <= n < ANIMATION_STEPS ==> (#[trigger] begun.ticked_through(
                    handle,
                    frames.take(n),
                )).tick_result(handle, frames[n]) == Ok::<TickOutcome, ZoneError>(
                    if n < ANIMATION_STEPS - 1 {
                        TickOutcome::Continue
                    } else {
                        TickOutcome::Complete
                    },
                )
            &&& done.run is None
            &&& done.icons.len() == state.icons.len()
            &&& done.main_icon.size == main_target(direction, frames.last(), 1)
            &&& forall|i: int|
                0 <= i < done.icons.len() ==> (#[trigger] done.icons[i]).size == icon_target(
                    direction,
                    frames.last(),
                    1,
                )
        }),
{
    let begun = state.started(direction);
    let handle = AnimationHandle { generation: begun.generation };
    let last = ANIMATION_STEPS as int - 1;
    assert forall|n: int| 0 <= n < ANIMATION_STEPS implies (#[trigger] begun.ticked_through(
        handle,
        frames.take(n),
    )).tick_result(handle, frames[n]) == Ok::<TickOutcome, ZoneError>(
        if n < ANIMATION_STEPS - 1 {
            TickOutcome::Continue
        } else {
            TickOutcome::Complete
        },
    ) by {
        lemma_run_counts_down(state, direction, frames, n);
    }
    lemma_run_counts_down(state, direction, frames, last);
    let before = begun.ticked_through(handle, frames.take(last));
    let frame = frames.last();
    let done = begun.ticked_through(handle, frames);
    lemma_eased_between(before.main_icon.size as int, main_target(direction, frame, 1), 1);
    assert forall|i: int| 0 <= i < done.icons.len() implies (#[trigger] done.icons[i]).size
        == icon_target(direction, frame, 1) by {
        lemma_eased_between(before.icons[i].size as int, icon_target(direction, frame, 1), 1);
    }
}

/// Once a run is cancelled, ticking its handle changes nothing, however
/// often and with whatever frames, and every such tick reports `Complete`.
pub proof fn lemma_cancelled_handle_is_inert(
    state: ControllerState,
    handle: AnimationHandle,
    frames: Seq<Frame>,
)
    ensures
        state.cancelled(handle).ticked_through(handle, frames) == state.cancelled(handle),
        forall|frame: Frame| #[trigger]
            state.cancelled(handle).tick_result(handle, frame) == Ok::<TickOutcome, ZoneError>(
                TickOutcome::Complete,
            ),
    decreases frames.len(),
{
    if frames.len() > 0 {
        lemma_cancelled_handle_is_inert(state, handle, frames.drop_last());
    }
}

/// Once a run is replaced by a new one, ticking or cancelling the old
/// handle changes nothing, and ticking it reports `Complete`.
pub proof fn lemma_replaced_handle_is_inert(
    state: ControllerState,
    direction: Direction,
    stale: AnimationHandle,
    frame: Frame,
)
    requires
        stale.generation != next_generation(state.generation),
    ensures
        state.started(direction).ticked(stale, frame) == state.started(direction),
        state.started(direction).cancelled(stale) == state.started(direction),
        state.started(direction).tick_result(stale, frame) == Ok::<TickOutcome, ZoneError>(
            TickOutcome::Complete,
        ),
{
}

} // verus!
