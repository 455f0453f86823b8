//! The compositor: every sub-frame is resolved through its colour table and
//! blitted onto a persistent logical canvas; the whole canvas is snapshotted
//! as that frame's output; then the sub-frame's disposal method prepares the
//! canvas for the next one.

use vstd::prelude::*;
use vstd::arithmetic::div_mod::lemma_fundamental_div_mod;
use vstd::arithmetic::div_mod::lemma_mod_pos_bound;
use crate::frame::AnimationFrame;
use crate::frame::DecodeError;
use crate::frame::Disposal;
use crate::frame::FrameView;
use crate::frame::Rgba;
use crate::frame::SubFrame;
use crate::frame::SubFrameView;
use crate::frame::clear_colour;

verus! {

/// Whether canvas position `(x, y)` lies inside the sub-frame's rectangle.
pub open spec fn in_sub_rect(sub: SubFrameView, x: int, y: int) -> bool {
    sub.left <= x < sub.left + sub.width && sub.top <= y < sub.top + sub.height
}

/// The indexed pixel the sub-frame holds for canvas position `(x, y)`.
pub open spec fn sub_pixel_index(sub: SubFrameView, x: int, y: int) -> u8 {
    sub.pixels[(y - sub.top) * sub.width + (x - sub.left)]
}

/// Whether `idx` is the sub-frame's transparent colour index.
pub open spec fn is_transparent_index(sub: SubFrameView, idx: u8) -> bool {
    sub.transparent == Some(idx)
}

/// The colour table the sub-frame resolves through: its local table when it
/// has one, the global one otherwise.
pub open spec fn effective_palette(sub: SubFrameView, gpal: Seq<u8>) -> Seq<u8> {
    match sub.palette {
        Some(p) => p,
        None => gpal,
    }
}

/// The fully opaque colour of entry `idx` of a table of RGB triples.
pub open spec fn palette_colour(pal: Seq<u8>, idx: int) -> Rgba {
    Rgba { red: pal[3 * idx], green: pal[3 * idx + 1], blue: pal[3 * idx + 2], alpha: 255 }
}

/// The sub-frame holds exactly one indexed pixel per cell of its rectangle.
pub open spec fn pixel_count_ok(sub: SubFrameView) -> bool {
    sub.pixels.len() == sub.width * sub.height
}

/// Every pixel that is not transparent refers to an entry that exists in
/// the colour table.
pub open spec fn indexes_ok(sub: SubFrameView, pal: Seq<u8>) -> bool {
    forall|k: int|
        0 <= k < sub.pixels.len() && !is_transparent_index(sub, #[trigger] sub.pixels[k]) ==> 3 * (
        sub.pixels[k] as int) + 3 <= pal.len()
}

/// The decode failure a sub-frame provokes, if any.
pub open spec fn sub_error(sub: SubFrameView, gpal: Seq<u8>) -> Option<DecodeError> {
    if !pixel_count_ok(sub) {
        Some(DecodeError::Malformed)
    } else if !indexes_ok(sub, effective_palette(sub, gpal)) {
        Some(DecodeError::InvalidColorIndex)
    } else {
        None
    }
}

/// What blitting the sub-frame leaves at a canvas position holding `under`:
/// the resolved colour where the rectangle covers it with an opaque pixel,
/// the prior content everywhere else — transparent pixels show through.
pub open spec fn blit_pixel(sub: SubFrameView, pal: Seq<u8>, under: Rgba, x: int, y: int) -> Rgba {
    if in_sub_rect(sub, x, y) && !is_transparent_index(sub, sub_pixel_index(sub, x, y)) {
        palette_colour(pal, sub_pixel_index(sub, x, y) as int)
    } else {
        under
    }
}

/// The whole canvas after the sub-frame is blitted onto it; positions of the
/// rectangle that fall outside the canvas are clipped away.
pub open spec fn blitted(canvas: Seq<Rgba>, sub: SubFrameView, pal: Seq<u8>, w: int) -> Seq<Rgba> {
    Seq::new(canvas.len(), |i: int| blit_pixel(sub, pal, canvas[i], i % w, i / w))
}

/// What the disposal method leaves at a canvas position: inside the
/// sub-frame's rectangle, restore-to-background clears it and
/// restore-to-previous reverts it to the pre-blit content `pre`; everywhere
/// else, and under keep/unspecified, the shown content stays.
pub open spec fn dispose_pixel(sub: SubFrameView, pre: Rgba, shown: Rgba, x: int, y: int) -> Rgba {
    match sub.disposal {
        Disposal::Background => if in_sub_rect(sub, x, y) {
            clear_colour()
        } else {
            shown
        },
        Disposal::Previous => if in_sub_rect(sub, x, y) {
            pre
        } else {
            shown
        },
        _ => shown,
    }
}

/// The whole canvas after the sub-frame's disposal method is applied.
pub open spec fn disposed(pre: Seq<Rgba>, shown: Seq<Rgba>, sub: SubFrameView, w: int) -> Seq<
    Rgba,
> {
    Seq::new(shown.len(), |i: int| dispose_pixel(sub, pre[i], shown[i], i % w, i / w))
}

/// The canvas before anything is drawn: fully transparent.
pub open spec fn initial_canvas(w: int, h: int) -> Seq<Rgba> {
    Seq::new((w * h) as nat, |i: int| clear_colour())
}

/// The canvas just before sub-frame `n` is blitted: the first `n`
/// sub-frames blitted and disposed of in order.
pub open spec fn canvas_before(
    subs: Seq<SubFrameView>,
    gpal: Seq<u8>,
    w: int,
    h: int,
    n: int,
) -> Seq<Rgba>
    decreases n,
{
    if n <= 0 {
        initial_canvas(w, h)
    } else {
        let pre = canvas_before(subs, gpal, w, h, n - 1);
        let shown = blitted(pre, subs[n - 1], effective_palette(subs[n - 1], gpal), w);
        disposed(pre, shown, subs[n - 1], w)
    }
}

/// The composited output of frame `i`: the canvas snapshot taken right
/// after sub-frame `i` is blitted, before its disposal is applied.
pub open spec fn frame_pixels(
    subs: Seq<SubFrameView>,
    gpal: Seq<u8>,
    w: int,
    h: int,
    i: int,
) -> Seq<Rgba> {
    blitted(canvas_before(subs, gpal, w, h, i), subs[i], effective_palette(subs[i], gpal), w)
}

/// A delay in hundredths of a second, as the file stores it, in
/// microseconds.
pub open spec fn delay_micros(delay: int) -> int {
    delay * 10000
}

/// The mathematical images of a sequence of sub-frames.
pub open spec fn sub_views(subs: Seq<SubFrame>) -> Seq<SubFrameView> {
    subs.map_values(|s: SubFrame| s@)
}

/// No sub-frame of the sequence provokes a decode failure.
pub open spec fn all_subs_ok(subs: Seq<SubFrameView>, gpal: Seq<u8>) -> bool {
    forall|i: int| 0 <= i < subs.len() ==> sub_error(#[trigger] subs[i], gpal) is None
}

/// The failure of the first failing sub-frame of the sequence, if any.
pub open spec fn first_sub_error(subs: Seq<SubFrameView>, gpal: Seq<u8>) -> Option<DecodeError>
    decreases subs.len(),
{
    if subs.len() == 0 {
        None
    } else if sub_error(subs[0], gpal) is Some {
        sub_error(subs[0], gpal)
    } else {
        first_sub_error(subs.skip(1), gpal)
    }
}

/// There is no first failure exactly when no sub-frame fails at all.
pub proof fn lemma_no_first_error(subs: Seq<SubFrameView>, gpal: Seq<u8>)
    ensures
        (first_sub_error(subs, gpal) is None) <==> all_subs_ok(subs, gpal),
    decreases subs.len(),
{
    if subs.len() > 0 {
        lemma_no_first_error(subs.skip(1), gpal);
        if sub_error(subs[0], gpal) is None && all_subs_ok(subs.skip(1), gpal) {
            assert forall|i: int| 0 <= i < subs.len() implies sub_error(
                #[trigger] subs[i],
                gpal,
            ) is None by {
                if i > 0 {
                    assert(subs.skip(1)[i - 1] == subs[i]);
                }
            }
        }
        if all_subs_ok(subs, gpal) {
            assert forall|i: int| 0 <= i < subs.skip(1).len() implies sub_error(
                #[trigger] subs.skip(1)[i],
                gpal,
            ) is None by {
                assert(subs.skip(1)[i] == subs[i + 1]);
            }
        }
    }
}

/// The sub-frame that fails first decides the first failure.
pub proof fn lemma_first_error_at(subs: Seq<SubFrameView>, gpal: Seq<u8>, j: int)
    requires
        0 <= j < subs.len(),
        forall|k: int| 0 <= k < j ==> sub_error(#[trigger] subs[k], gpal) is None,
        sub_error(subs[j], gpal) is Some,
    ensures
        first_sub_error(subs, gpal) == sub_error(subs[j], gpal),
    decreases j,
{
    if j > 0 {
        assert forall|k: int| 0 <= k < j - 1 implies sub_error(
            #[trigger] subs.skip(1)[k],
            gpal,
        ) is None by {
            assert(subs.skip(1)[k] == subs[k + 1]);
        }
        assert(subs.skip(1)[j - 1] == subs[j]);
        lemma_first_error_at(subs.skip(1), gpal, j - 1);
    }
}

/// The full composited frame sequence of a well-formed sub-frame sequence.
pub open spec fn composed_views(
    subs: Seq<SubFrameView>,
    gpal: Seq<u8>,
    w: int,
    h: int,
) -> Seq<FrameView> {
    Seq::new(
        subs.len(),
        |i: int|
            FrameView {
                pixels: frame_pixels(subs, gpal, w, h, i),
                delay_us: delay_micros(subs[i].delay) as u32,
            },
    )
}

/// A canvas-sized buffer of fully transparent pixels.
#[verifier::loop_isolation(false)]
fn fresh_canvas(w: u16, h: u16) -> (canvas: Vec<Rgba>)
    ensures
        canvas@ == initial_canvas(w as int, h as int),
{
    proof {
        assert((w as int) * (h as int) <= 0xffff * 0xffff) by (nonlinear_arith)
            requires
                w as int <= 0xffff,
                h as int <= 0xffff,
                0 <= w as int,
                0 <= h as int,
        ;
    }
    let total = (w as usize) * (h as usize);
    let mut canvas: Vec<Rgba> = Vec::new();
    let mut i: usize = 0;
    while i < total
        invariant
            i <= total,
            canvas@.len() == i,
            forall|j: int| 0 <= j < i ==> canvas@[j] == clear_colour(),
        decreases total - i,
    {
        canvas.push(Rgba { red: 0, green: 0, blue: 0, alpha: 0 });
        i = i + 1;
    }
    proof {
        assert(canvas@ =~= initial_canvas(w as int, h as int));
    }
    canvas
}

/// An exact copy of a pixel buffer.
#[verifier::loop_isolation(false)]
fn dup_pixels(src: &Vec<Rgba>) -> (out: Vec<Rgba>)
    ensures
        out@ == src@,
{
    let mut out: Vec<Rgba> = Vec::new();
    let mut i: usize = 0;
    while i < src.len()
        invariant
            i <= src@.len(),
            out@.len() == i,
            forall|j: int| 0 <= j < i ==> out@[j] == src@[j],
        decreases src@.len() - i,
    {
        out.push(src[i]);
        i = i + 1;
    }
    proof {
        assert(out@ =~= src@);
    }
    out
}

/// Whether every opaque pixel of the sub-frame refers to an entry that the
/// colour table really holds.
#[verifier::loop_isolation(false)]
fn check_indexes(sub: &SubFrame, pal: &Vec<u8>) -> (ok: bool)
    ensures
        ok == indexes_ok(sub@, pal@),
{
    let mut k: usize = 0;
    while k < sub.pixels.len()
        invariant
            k <= sub.pixels@.len(),
            forall|j: int|
                0 <= j < k && !is_transparent_index(sub@, #[trigger] sub@.pixels[j]) ==> 3 * (
                sub@.pixels[j] as int) + 3 <= pal@.len(),
        decreases sub.pixels@.len() - k,
    {
        let idx = sub.pixels[k];
        let transparent = match sub.transparent {
            Some(t) => t == idx,
            None => false,
        };
        if !transparent {
            if pal.len() < 3 * (idx as usize) + 3 {
                proof {
                    assert(!is_transparent_index(sub@, sub@.pixels[k as int]));
                    assert(!indexes_ok(sub@, pal@));
                }
                return false;
            }
        }
        k = k + 1;
    }
    true
}

/// Blit the sub-frame onto the canvas: opaque pixels of the rectangle take
/// their table colour, transparent ones leave the canvas untouched, and
/// anything outside the canvas is clipped away.
#[verifier::loop_isolation(false)]
fn blit_into(canvas: &mut Vec<Rgba>, sub: &SubFrame, pal: &Vec<u8>, w: u16, h: u16)
    requires
        old(canvas)@.len() == w as int * h as int,
        pixel_count_ok(sub@),
        indexes_ok(sub@, pal@),
    ensures
        final(canvas)@ == blitted(old(canvas)@, sub@, pal@, w as int),
{
    let ghost c0 = canvas@;
    let wu = w as usize;
    let total = canvas.len();
    let mut i: usize = 0;
    while i < total
        invariant
            i <= total,
            canvas@.len() == c0.len(),
            forall|j: int|
                0 <= j < i ==> canvas@[j] == blit_pixel(
                    sub@,
                    pal@,
                    c0[j],
                    j % (w as int),
                    j / (w as int),
                ),
            forall|j: int| i <= j < c0.len() ==> canvas@[j] == c0[j],
        decreases total - i,
    {
        proof {
            if w == 0 {
                assert((w as int) * (h as int) == 0) by (nonlinear_arith)
                    requires
                        w as int == 0,
                ;
            }
        }
        let x = i % wu;
        let y = i / wu;
        proof {
            lemma_fundamental_div_mod(i as int, wu as int);
            lemma_mod_pos_bound(i as int, wu as int);
            assert((y as int) < (h as int)) by (nonlinear_arith)
                requires
                    (wu as int) * (y as int) + (x as int) == i as int,
                    0 <= x as int && (x as int) < (wu as int),
                    (i as int) < (w as int) * (h as int),
                    wu as int == w as int,
                    0 <= y as int,
            ;
        }
        let in_rect = (sub.left as usize) <= x && x < (sub.left as usize) + (sub.width as usize)
            && (sub.top as usize) <= y && y < (sub.top as usize) + (sub.height as usize);
        if in_rect {
            let row = y - (sub.top as usize);
            let col = x - (sub.left as usize);
            let plen = sub.pixels.len();
            proof {
                assert((row as int) * (sub.width as int) + (col as int) < (sub.height as int) * (
                sub.width as int)) by (nonlinear_arith)
                    requires
                        0 <= row as int && (row as int) < (sub.height as int),
                        0 <= col as int && (col as int) < (sub.width as int),
                ;
                assert((sub@.height * sub@.width) == (sub@.width * sub@.height)) by (
                nonlinear_arith);
                assert((row as int) * (sub.width as int) + (col as int) < plen as int);
            }
            let off = row * (sub.width as usize) + col;
            let idx = sub.pixels[off];
            let transparent = match sub.transparent {
                Some(t) => t == idx,
                None => false,
            };
            if !transparent {
                let base = 3 * (idx as usize);
                let colour = Rgba {
                    red: pal[base],
                    green: pal[base + 1],
                    blue: pal[base + 2],
                    alpha: 255,
                };
                canvas[i] = colour;
                proof {
                    assert(sub_pixel_index(sub@, x as int, y as int) == idx);
                    assert(canvas@[i as int] == blit_pixel(
                        sub@,
                        pal@,
                        c0[i as int],
                        i as int % (w as int),
                        i as int / (w as int),
                    ));
                }
            }
        }
        i = i + 1;
    }
    proof {
        assert(canvas@ =~= blitted(c0, sub@, pal@, w as int));
    }
}

/// Clear the sub-frame's rectangle back to the transparent background.
#[verifier::loop_isolation(false)]
fn clear_region(canvas: &mut Vec<Rgba>, sub: &SubFrame, w: u16, h: u16)
    requires
        old(canvas)@.len() == w as int * h as int,
    ensures
        final(canvas)@.len() == old(canvas)@.len(),
        forall|i: int|
            0 <= i < old(canvas)@.len() ==> final(canvas)@[i] == (if in_sub_rect(
                sub@,
                i % (w as int),
                i / (w as int),
            ) {
                clear_colour()
            } else {
                old(canvas)@[i]
            }),
{
    let ghost c0 = canvas@;
    let wu = w as usize;
    let total = canvas.len();
    let mut i: usize = 0;
    while i < total
        invariant
            i <= total,
            canvas@.len() == c0.len(),
            forall|j: int|
                0 <= j < i ==> canvas@[j] == (if in_sub_rect(sub@, j % (w as int), j / (w as int)) {
                    clear_colour()
                } else {
                    c0[j]
                }),
            forall|j: int| i <= j < c0.len() ==> canvas@[j] == c0[j],
        decreases total - i,
    {
        proof {
            if w == 0 {
                assert((w as int) * (h as int) == 0) by (nonlinear_arith)
                    requires
                        w as int == 0,
                ;
            }
        }
        let x = i % wu;
        let y = i / wu;
        proof {
            lemma_fundamental_div_mod(i as int, wu as int);
            lemma_mod_pos_bound(i as int, wu as int);
        }
        let in_rect = (sub.left as usize) <= x && x < (sub.left as usize) + (sub.width as usize)
            && (sub.top as usize) <= y && y < (sub.top as usize) + (sub.height as usize);
        if in_rect {
            canvas[i] = Rgba { red: 0, green: 0, blue: 0, alpha: 0 };
        }
        i = i + 1;
    }
}

/// Revert the sub-frame's rectangle to the pre-blit content held in `prev`.
#[verifier::loop_isolation(false)]
fn restore_region(canvas: &mut Vec<Rgba>, prev: &Vec<Rgba>, sub: &SubFrame, w: u16, h: u16)
    requires
        old(canvas)@.len() == w as int * h as int,
        prev@.len() == old(canvas)@.len(),
    ensures
        final(canvas)@.len() == old(canvas)@.len(),
        forall|i: int|
            0 <= i < old(canvas)@.len() ==> final(canvas)@[i] == (if in_sub_rect(
                sub@,
                i % (w as int),
                i / (w as int),
            ) {
                prev@[i]
            } else {
                old(canvas)@[i]
            }),
{
    let ghost c0 = canvas@;
    let wu = w as usize;
    let total = canvas.len();
    let mut i: usize = 0;
    while i < total
        invariant
            i <= total,
            canvas@.len() == c0.len(),
            forall|j: int|
                0 <= j < i ==> canvas@[j] == (if in_sub_rect(sub@, j % (w as int), j / (w as int)) {
                    prev@[j]
                } else {
                    c0[j]
                }),
            forall|j: int| i <= j < c0.len() ==> canvas@[j] == c0[j],
        decreases total - i,
    {
        proof {
            if w == 0 {
                assert((w as int) * (h as int) == 0) by (nonlinear_arith)
                    requires
                        w as int == 0,
                ;
            }
        }
        let x = i % wu;
        let y = i / wu;
        proof {
            lemma_fundamental_div_mod(i as int, wu as int);
            lemma_mod_pos_bound(i as int, wu as int);
        }
        let in_rect = (sub.left as usize) <= x && x < (sub.left as usize) + (sub.width as usize)
            && (sub.top as usize) <= y && y < (sub.top as usize) + (sub.height as usize);
        if in_rect {
            canvas[i] = prev[i];
        }
        i = i + 1;
    }
}

/// Composite a sequence of raw sub-frames against the global colour table
/// into full-canvas frames, exactly as [`composed_views`] states: each
/// sub-frame is blitted onto the persistent canvas, the whole canvas is
/// snapshotted as that frame's output, and the disposal method then
/// prepares the canvas for the next sub-frame.  Fails on the first
/// sub-frame whose pixel buffer does not match its rectangle or whose
/// pixels refer past the end of the colour table.
#[verifier::loop_isolation(false)]
pub fn compose_frames(subs: &Vec<SubFrame>, gpal: &Vec<u8>, w: u16, h: u16) -> (result: Result<
    Vec<AnimationFrame>,
    DecodeError,
>)
    ensures
        all_subs_ok(sub_views(subs@), gpal@) <==> result is Ok,
        (result matches Ok(frames) ==> frames@.map_values(|f: AnimationFrame| f@)
            == composed_views(sub_views(subs@), gpal@, w as int, h as int)),
        (result matches Err(e) ==> exists|j: int|
            0 <= j < subs@.len() && (forall|k: int|
                0 <= k < j ==> sub_error(#[trigger] sub_views(subs@)[k], gpal@) is None)
                && sub_error(#[trigger] sub_views(subs@)[j], gpal@) == Some(e)),
{
    let ghost subsv = sub_views(subs@);
    let mut canvas = fresh_canvas(w, h);
    let mut frames: Vec<AnimationFrame> = Vec::new();
    let mut n: usize = 0;
    while n < subs.len()
        invariant
            n <= subs@.len(),
            frames@.len() == n,
            canvas@.len() == w as int * h as int,
            canvas@ == canvas_before(subsv, gpal@, w as int, h as int, n as int),
            forall|k: int| 0 <= k < n ==> sub_error(#[trigger] subsv[k], gpal@) is None,
            forall|k: int|
                0 <= k < n ==> (#[trigger] frames@[k])@.pixels == frame_pixels(
                    subsv,
                    gpal@,
                    w as int,
                    h as int,
                    k,
                ) && frames@[k]@.delay_us == delay_micros(subsv[k].delay),
        decreases subs@.len() - n,
    {
        let sub = &subs[n];
        proof {
            assert((sub.width as int) * (sub.height as int) <= 0xffff * 0xffff) by (
            nonlinear_arith)
                requires
                    0 <= sub.width as int <= 0xffff,
                    0 <= sub.height as int <= 0xffff,
            ;
            assert((sub@.width * sub@.height) == (sub.width as int) * (sub.height as int));
        }
        let expected = (sub.width as usize) * (sub.height as usize);
        if sub.pixels.len() != expected {
            proof {
                assert(!pixel_count_ok(subsv[n as int]));
                assert(sub_error(subsv[n as int], gpal@) == Some(DecodeError::Malformed));
            }
            return Err(DecodeError::Malformed);
        }
        let pal: &Vec<u8> = match &sub.palette {
            Some(p) => p,
            None => gpal,
        };
        proof {
            assert(pal@ == effective_palette(subsv[n as int], gpal@));
        }
        if !check_indexes(sub, pal) {
            proof {
                assert(sub_error(subsv[n as int], gpal@) == Some(DecodeError::InvalidColorIndex));
            }
            return Err(DecodeError::InvalidColorIndex);
        }
        let prev = dup_pixels(&canvas);
        blit_into(&mut canvas, sub, pal, w, h);
        let snapshot = dup_pixels(&canvas);
        proof {
            assert(snapshot@ =~= frame_pixels(subsv, gpal@, w as int, h as int, n as int));
        }
        let delay_us: u32 = (sub.delay as u32) * 10000;
        frames.push(AnimationFrame { pixels: snapshot, delay_us });
        match sub.disposal {
            Disposal::Background => clear_region(&mut canvas, sub, w, h),
            Disposal::Previous => restore_region(&mut canvas, &prev, sub, w, h),
            Disposal::Keep => (),
            Disposal::Unspecified => (),
        }
        proof {
            assert(canvas@ =~= canvas_before(subsv, gpal@, w as int, h as int, n as int + 1));
        }
        n = n + 1;
    }
    proof {
        assert(frames@.map_values(|f: AnimationFrame| f@) =~= composed_views(
            subsv,
            gpal@,
            w as int,
            h as int,
        ));
    }
    Ok(frames)
}

} // verus!
