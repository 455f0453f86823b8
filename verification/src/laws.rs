//! Laws of the playback state machine and of the compositor, stated over
//! the same transition and pixel functions that the executable functions'
//! contracts use.

use vstd::prelude::*;
use vstd::arithmetic::div_mod::lemma_fundamental_div_mod_converse;
use vstd::arithmetic::div_mod::lemma_mod_multiples_vanish;
use vstd::arithmetic::div_mod::lemma_small_mod;
use crate::compose::blitted;
use crate::compose::in_sub_rect;
use crate::compose::is_transparent_index;
use crate::compose::sub_pixel_index;
use crate::frame::FrameView;
use crate::frame::Rgba;
use crate::frame::SubFrameView;
use crate::play::AnimView;
use crate::play::next_frame_index;
use crate::play::tick_transition;
use crate::play::toggle_transition;
use crate::play::view_wf;

verus! {

/// One playback control action.
pub enum PlayerAction {
    Tick(u64),
    TogglePaused,
}

/// The state after one control action.
pub open spec fn apply_action(v: AnimView, action: PlayerAction) -> AnimView {
    match action {
        PlayerAction::Tick(delta_us) => tick_transition(v, delta_us),
        PlayerAction::TogglePaused => toggle_transition(v),
    }
}

/// The state after a whole sequence of control actions, applied in order.
pub open spec fn run_actions(v: AnimView, actions: Seq<PlayerAction>) -> AnimView
    decreases actions.len(),
{
    if actions.len() == 0 {
        v
    } else {
        run_actions(apply_action(v, actions[0]), actions.skip(1))
    }
}

/// The state after `n` ticks of the same delta.
pub open spec fn repeat_tick(v: AnimView, delta_us: u64, n: nat) -> AnimView
    decreases n,
{
    if n == 0 {
        v
    } else {
        repeat_tick(tick_transition(v, delta_us), delta_us, (n - 1) as nat)
    }
}

/// The sum of all frame delays, in microseconds.
pub open spec fn total_delay_us(frames: Seq<FrameView>) -> int
    decreases frames.len(),
{
    if frames.len() == 0 {
        0
    } else {
        frames[0].delay_us + total_delay_us(frames.skip(1))
    }
}

/// A single tick keeps the state well formed.
pub proof fn lemma_tick_preserves_wf(v: AnimView, delta_us: u64)
    requires
        view_wf(v),
    ensures
        view_wf(tick_transition(v, delta_us)),
{
}

/// Toggling pause keeps the state well formed.
pub proof fn lemma_toggle_preserves_wf(v: AnimView)
    requires
        view_wf(v),
    ensures
        view_wf(toggle_transition(v)),
{
}

/// After any sequence of ticks and pause toggles a well-formed state stays
/// well formed: it keeps at least one frame and its cursor keeps pointing
/// at one of them.
pub proof fn lemma_actions_preserve_wf(v: AnimView, actions: Seq<PlayerAction>)
    requires
        view_wf(v),
    ensures
        view_wf(run_actions(v, actions)),
    decreases actions.len(),
{
    if actions.len() > 0 {
        lemma_actions_preserve_wf(apply_action(v, actions[0]), actions.skip(1));
    }
}

/// Toggling pause twice returns playback to the original state: the same
/// paused flag, frame cursor and elapsed time.
pub proof fn lemma_toggle_paused_twice(v: AnimView)
    ensures
        toggle_transition(toggle_transition(v)) == v,
{
    assert(toggle_transition(toggle_transition(v)) =~= v);
}

/// While paused, any sequence of ticks leaves the state — in particular
/// the frame cursor and the elapsed time — entirely unchanged.
pub proof fn lemma_pause_freezes(v: AnimView, deltas: Seq<u64>)
    requires
        v.paused,
    ensures
        run_actions(v, deltas.map_values(|d: u64| PlayerAction::Tick(d))) == v,
    decreases deltas.len(),
{
    let actions = deltas.map_values(|d: u64| PlayerAction::Tick(d));
    if deltas.len() > 0 {
        assert(apply_action(v, actions[0]) == v);
        assert(actions.skip(1) =~= deltas.skip(1).map_values(|d: u64| PlayerAction::Tick(d)));
        lemma_pause_freezes(v, deltas.skip(1));
    }
}

/// A frame whose delay is zero is left behind by the very next tick whose
/// delta is nonzero.
pub proof fn lemma_zero_delay_advances(v: AnimView, delta_us: u64)
    requires
        view_wf(v),
        !v.paused,
        v.frames[v.current_frame].delay_us == 0,
        delta_us > 0,
    ensures
        tick_transition(v, delta_us).current_frame == next_frame_index(v),
        tick_transition(v, delta_us).elapsed_us == 0,
{
}

/// Every frame's delay is at most the total delay.
proof fn lemma_delay_le_total(frames: Seq<FrameView>, i: int)
    requires
        0 <= i < frames.len(),
    ensures
        frames[i].delay_us <= total_delay_us(frames),
    decreases frames.len(),
{
    if i == 0 {
        lemma_total_delay_nonneg(frames.skip(1));
    } else {
        lemma_delay_le_total(frames.skip(1), i - 1);
    }
}

/// The total delay is never negative.
proof fn lemma_total_delay_nonneg(frames: Seq<FrameView>)
    ensures
        total_delay_us(frames) >= 0,
    decreases frames.len(),
{
    if frames.len() > 0 {
        lemma_total_delay_nonneg(frames.skip(1));
    }
}

/// Advancing is adding one to the cursor, modulo the frame count.
proof fn lemma_next_is_mod(v: AnimView)
    requires
        view_wf(v),
    ensures
        next_frame_index(v) == (v.current_frame + 1) % (v.frames.len() as int),
{
    let len = v.frames.len() as int;
    if v.current_frame == len - 1 {
        lemma_mod_multiples_vanish(1, 0, len);
    } else {
        lemma_small_mod((v.current_frame + 1) as nat, len as nat);
    }
}

/// After `n` unpaused ticks that each exceed every frame delay, the cursor
/// has advanced exactly `n` steps around the ring and no time is left on
/// the current frame.
proof fn lemma_cycle_steps(v: AnimView, delta_us: u64, n: nat)
    requires
        view_wf(v),
        !v.paused,
        1 <= n,
        delta_us > total_delay_us(v.frames),
    ensures
        repeat_tick(v, delta_us, n) == (AnimView {
            current_frame: (v.current_frame + n) % (v.frames.len() as int),
            elapsed_us: 0,
            ..v
        }),
    decreases n,
{
    let len = v.frames.len() as int;
    lemma_delay_le_total(v.frames, v.current_frame);
    let first = tick_transition(v, delta_us);
    lemma_next_is_mod(v);
    assert(first =~= (AnimView {
        current_frame: (v.current_frame + 1) % len,
        elapsed_us: 0,
        ..v
    }));
    assert(repeat_tick(v, delta_us, n) == repeat_tick(first, delta_us, (n - 1) as nat));
    if n == 1 {
        assert(repeat_tick(first, delta_us, 0) == first);
    } else {
        lemma_cycle_steps(first, delta_us, (n - 1) as nat);
        lemma_mod_multiples_vanish(0, v.current_frame + 1, len);
        assert(((v.current_frame + 1) % len + (n - 1)) % len == (v.current_frame + n) % len) by {
            lemma_mod_adds_helper(v.current_frame + 1, n as int - 1, len);
        }
        assert(repeat_tick(v, delta_us, n) =~= (AnimView {
            current_frame: (v.current_frame + n) % len,
            elapsed_us: 0,
            ..v
        }));
    }
}

/// Adding to a reduced value then reducing is the same as reducing the
/// whole sum.
proof fn lemma_mod_adds_helper(a: int, b: int, len: int)
    requires
        len > 0,
    ensures
        (a % len + b) % len == (a + b) % len,
{
    lemma_mod_multiples_vanish(a / len, a % len + b, len);
    vstd::arithmetic::div_mod::lemma_fundamental_div_mod(a, len);
}

/// Looping: from any reachable unpaused state, ticking once per frame with
/// a delta beyond the sum of all delays advances the cursor exactly once
/// around the ring — frame count many single steps — and returns it to the
/// frame it started on, with no elapsed time left.
pub proof fn lemma_full_cycle(v: AnimView, delta_us: u64)
    requires
        view_wf(v),
        !v.paused,
        delta_us > total_delay_us(v.frames),
    ensures
        repeat_tick(v, delta_us, v.frames.len()) == (AnimView { elapsed_us: 0, ..v }),
{
    let len = v.frames.len() as int;
    lemma_cycle_steps(v, delta_us, v.frames.len());
    lemma_mod_multiples_vanish(1, v.current_frame, len);
    lemma_small_mod(v.current_frame as nat, len as nat);
    assert(repeat_tick(v, delta_us, v.frames.len()) =~= (AnimView { elapsed_us: 0, ..v }));
}

/// Transparency: where a sub-frame's rectangle covers a canvas position
/// with a pixel whose index is the transparent one, the blit leaves the
/// prior canvas content at that position untouched.
pub proof fn lemma_transparent_shows_through(
    canvas: Seq<Rgba>,
    sub: SubFrameView,
    pal: Seq<u8>,
    w: int,
    x: int,
    y: int,
)
    requires
        0 <= x < w,
        0 <= y,
        y * w + x < canvas.len(),
        in_sub_rect(sub, x, y),
        is_transparent_index(sub, sub_pixel_index(sub, x, y)),
    ensures
        blitted(canvas, sub, pal, w)[y * w + x] == canvas[y * w + x],
{
    lemma_fundamental_div_mod_converse(y * w + x, w, y, x);
}

} // verus!
