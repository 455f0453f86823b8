//! The playback engine: a frame sequence with a cursor, driven purely by
//! externally supplied time deltas.

use vstd::prelude::*;
use crate::frame::AnimationFrame;
use crate::frame::FrameView;

verus! {

/// How the host's render surface should scale the canvas texture.  The
/// engine only stores the hint and hands it back unchanged; it has no
/// effect on decoding, compositing or playback.
#[derive(Clone, Copy, PartialEq, Eq, Structural, Debug)]
pub enum FilterHint {
    Nearest,
    Linear,
}

/// An animation ready for playback: the composited frames, the logical
/// canvas size, and the playback cursor.  The frame sequence never changes
/// after construction; only the cursor moves, and only through [`Self::tick`]
/// and [`Self::toggle_paused`].
pub struct GifAnimation {
    frames: Vec<AnimationFrame>,
    /// Width of the logical canvas.
    pub width: u16,
    /// Height of the logical canvas.
    pub height: u16,
    current_frame: usize,
    elapsed_us: u64,
    paused: bool,
    filter_hint: FilterHint,
}

/// The mathematical image of a [`GifAnimation`].
#[verifier::ext_equal]
pub ghost struct AnimView {
    pub frames: Seq<FrameView>,
    pub width: u16,
    pub height: u16,
    pub current_frame: int,
    pub elapsed_us: int,
    pub paused: bool,
    pub filter_hint: FilterHint,
}

impl View for GifAnimation {
    type V = AnimView;

    closed spec fn view(&self) -> AnimView {
        AnimView {
            frames: self.frames@.map_values(|f: AnimationFrame| f@),
            width: self.width,
            height: self.height,
            current_frame: self.current_frame as int,
            elapsed_us: self.elapsed_us as int,
            paused: self.paused,
            filter_hint: self.filter_hint,
        }
    }
}

/// A playback state is well formed when it has at least one frame, its
/// cursor points at one of them, and its elapsed time is a machine value.
pub open spec fn view_wf(v: AnimView) -> bool {
    &&& v.frames.len() >= 1
    &&& 0 <= v.current_frame < v.frames.len()
    &&& 0 <= v.elapsed_us <= u64::MAX
}

/// The index shown after an advance: one further, wrapping past the last
/// frame back to the first.
pub open spec fn next_frame_index(v: AnimView) -> int {
    if v.current_frame == v.frames.len() - 1 {
        0
    } else {
        v.current_frame + 1
    }
}

/// What one call of [`GifAnimation::tick`] does to the state: nothing while
/// paused; otherwise the delta is added to the elapsed time, and once that
/// strictly exceeds the current frame's delay the cursor advances a single
/// step and the elapsed time restarts at zero.
pub open spec fn tick_transition(v: AnimView, delta_us: u64) -> AnimView {
    if v.paused {
        v
    } else if v.elapsed_us + delta_us > v.frames[v.current_frame].delay_us {
        AnimView { current_frame: next_frame_index(v), elapsed_us: 0, ..v }
    } else {
        AnimView { elapsed_us: v.elapsed_us + delta_us, ..v }
    }
}

/// What one call of [`GifAnimation::toggle_paused`] does to the state: the
/// pause flag flips, everything else stays.
pub open spec fn toggle_transition(v: AnimView) -> AnimView {
    AnimView { paused: !v.paused, ..v }
}

impl GifAnimation {
    /// Well-formedness of the playback state; see [`view_wf`].
    pub open spec fn wf(&self) -> bool {
        view_wf(self@)
    }

    /// Build an animation from already composited frames and the canvas
    /// size, with the cursor at the first frame, no time elapsed, playing.
    pub fn new(frames: Vec<AnimationFrame>, width: u16, height: u16) -> (anim: GifAnimation)
        requires
            frames@.len() >= 1,
        ensures
            anim@ == (AnimView {
                frames: frames@.map_values(|f: AnimationFrame| f@),
                width,
                height,
                current_frame: 0,
                elapsed_us: 0,
                paused: false,
                filter_hint: FilterHint::Nearest,
            }),
            anim.wf(),
    {
        GifAnimation {
            frames,
            width,
            height,
            current_frame: 0,
            elapsed_us: 0,
            paused: false,
            filter_hint: FilterHint::Nearest,
        }
    }

    /// The frame that should be displayed right now.
    pub fn frame(&self) -> (f: &AnimationFrame)
        requires
            self.wf(),
        ensures
            f@ == self@.frames[self@.current_frame],
    {
        &self.frames[self.current_frame]
    }

    /// The frame at a given index, for hosts that prepare one texture per
    /// frame up front.
    pub fn frame_at(&self, index: usize) -> (f: &AnimationFrame)
        requires
            index < self@.frames.len(),
        ensures
            f@ == self@.frames[index as int],
    {
        &self.frames[index]
    }

    /// The number of frames in the animation.
    pub fn frame_count(&self) -> (n: usize)
        ensures
            n == self@.frames.len(),
    {
        self.frames.len()
    }

    /// The index of the frame that should be displayed right now.
    pub fn current_frame_index(&self) -> (i: usize)
        ensures
            i == self@.current_frame,
    {
        self.current_frame
    }

    /// Time the current frame has been showing, in microseconds.
    pub fn elapsed_micros(&self) -> (e: u64)
        ensures
            e == self@.elapsed_us,
    {
        self.elapsed_us
    }

    /// Whether playback is paused.
    pub fn is_paused(&self) -> (p: bool)
        ensures
            p == self@.paused,
    {
        self.paused
    }

    /// The logical canvas size, for placement decisions made by the host.
    pub fn canvas_size(&self) -> (size: (u16, u16))
        ensures
            size.0 == self@.width,
            size.1 == self@.height,
    {
        (self.width, self.height)
    }

    /// Store a scaling hint for the render surface.  Frames and the
    /// playback cursor are untouched.
    pub fn set_filter_hint(&mut self, hint: FilterHint)
        ensures
            final(self)@ == (AnimView { filter_hint: hint, ..old(self)@ }),
            old(self).wf() ==> final(self).wf(),
    {
        self.filter_hint = hint;
    }

    /// The stored scaling hint, handed back verbatim.
    pub fn filter_hint(&self) -> (hint: FilterHint)
        ensures
            hint == self@.filter_hint,
    {
        self.filter_hint
    }

    /// Advance playback by `delta_us` microseconds, moving the cursor at
    /// most one frame; see [`tick_transition`] for the exact effect.
    pub fn tick(&mut self, delta_us: u64)
        requires
            old(self).wf(),
        ensures
            final(self)@ == tick_transition(old(self)@, delta_us),
            final(self).wf(),
    {
        if !self.paused {
            let delay = self.frames[self.current_frame].delay_us;
            let grown = if u64::MAX - self.elapsed_us < delta_us {
                u64::MAX
            } else {
                self.elapsed_us + delta_us
            };
            if grown > delay as u64 {
                self.advance_frame();
            } else {
                self.elapsed_us = grown;
            }
        }
    }

    /// Flip the pause flag; the cursor and the elapsed time are untouched.
    pub fn toggle_paused(&mut self)
        ensures
            final(self)@ == toggle_transition(old(self)@),
            old(self).wf() ==> final(self).wf(),
    {
        self.paused = !self.paused;
    }

    fn advance_frame(&mut self)
        requires
            old(self).wf(),
        ensures
            final(self)@ == (AnimView {
                current_frame: next_frame_index(old(self)@),
                elapsed_us: 0,
                ..old(self)@
            }),
    {
        self.current_frame = if self.current_frame == self.frames.len() - 1 {
            0
        } else {
            self.current_frame + 1
        };
        self.elapsed_us = 0;
    }
}

} // verus!
