use quad_gif::compose::compose_frames;
use quad_gif::frame::AnimationFrame;
use quad_gif::frame::DecodeError;
use quad_gif::frame::Disposal;
use quad_gif::frame::Rgba;
use quad_gif::frame::SubFrame;
use quad_gif::play::GifAnimation;

fn expect_err(result: Result<Vec<AnimationFrame>, DecodeError>) -> DecodeError {
    match result {
        Err(e) => e,
        Ok(_) => panic!("expected a decode failure"),
    }
}

const CLEAR: Rgba = Rgba { red: 0, green: 0, blue: 0, alpha: 0 };

fn px(red: u8, green: u8, blue: u8) -> Rgba {
    Rgba { red, green, blue, alpha: 255 }
}

// Palette: entry 0 red, entry 1 green, entry 2 blue, entry 3 white.
fn palette() -> Vec<u8> {
    vec![255, 0, 0, 0, 255, 0, 0, 0, 255, 255, 255, 255]
}

fn full_frame(width: u16, height: u16, index: u8) -> SubFrame {
    SubFrame {
        left: 0,
        top: 0,
        width,
        height,
        delay: 10,
        transparent: None,
        disposal: Disposal::Keep,
        palette: None,
        pixels: vec![index; width as usize * height as usize],
    }
}

#[test]
fn single_full_frame_resolves_palette() {
    let subs = vec![full_frame(2, 2, 1)];
    let frames = compose_frames(&subs, &palette(), 2, 2).unwrap();
    assert_eq!(frames.len(), 1);
    assert_eq!(frames[0].pixels, vec![px(0, 255, 0); 4]);
    assert_eq!(frames[0].delay_us, 100_000);
}

#[test]
fn untouched_canvas_stays_transparent() {
    // A 1x1 sub-frame in the corner of a 2x2 canvas.
    let mut sub = full_frame(1, 1, 0);
    sub.left = 1;
    sub.top = 1;
    let frames = compose_frames(&vec![sub], &palette(), 2, 2).unwrap();
    assert_eq!(frames[0].pixels, vec![CLEAR, CLEAR, CLEAR, px(255, 0, 0)]);
}

#[test]
fn transparent_pixel_shows_prior_canvas_content() {
    // Frame 1 paints everything green; frame 2 overlays a 2x1 strip whose
    // second pixel is transparent: the green must show through, not black.
    let base = full_frame(2, 2, 1);
    let overlay = SubFrame {
        left: 0,
        top: 0,
        width: 2,
        height: 1,
        delay: 10,
        transparent: Some(3),
        disposal: Disposal::Keep,
        palette: None,
        pixels: vec![2, 3],
    };
    let frames = compose_frames(&vec![base, overlay], &palette(), 2, 2).unwrap();
    assert_eq!(
        frames[1].pixels,
        vec![px(0, 0, 255), px(0, 255, 0), px(0, 255, 0), px(0, 255, 0)]
    );
}

#[test]
fn restore_to_background_clears_only_the_sub_rectangle() {
    // Frame 1 paints everything white; frame 2 is a 1x1 blue dot with
    // restore-to-background; frame 3 is an empty sub-frame, so its output
    // shows the canvas the disposal left behind.
    let base = full_frame(2, 2, 3);
    let mut dot = full_frame(1, 1, 2);
    dot.disposal = Disposal::Background;
    let empty = SubFrame {
        left: 0,
        top: 0,
        width: 0,
        height: 0,
        delay: 10,
        transparent: None,
        disposal: Disposal::Keep,
        palette: None,
        pixels: vec![],
    };
    let frames = compose_frames(&vec![base, dot, empty], &palette(), 2, 2).unwrap();
    let white = px(255, 255, 255);
    assert_eq!(frames[1].pixels, vec![px(0, 0, 255), white, white, white]);
    // After disposal the dot's cell is transparent again, the rest keeps.
    assert_eq!(frames[2].pixels, vec![CLEAR, white, white, white]);
}

#[test]
fn restore_to_background_does_not_leak_into_next_loop() {
    // Two frames; the second is a small sub-region with
    // restore-to-background.  Looping back to the first frame must show
    // its original content: composited frames are immutable snapshots.
    let base = full_frame(2, 2, 1);
    let mut dot = full_frame(1, 1, 2);
    dot.disposal = Disposal::Background;
    let frames = compose_frames(&vec![base, dot], &palette(), 2, 2).unwrap();
    let first_frame_pixels = frames[0].pixels.clone();
    let mut anim = GifAnimation::new(frames, 2, 2);
    anim.tick(200_000); // past frame 0
    assert_eq!(anim.current_frame_index(), 1);
    anim.tick(200_000); // loop back to frame 0
    assert_eq!(anim.current_frame_index(), 0);
    assert_eq!(anim.frame().pixels, first_frame_pixels);
    assert_eq!(anim.frame().pixels, vec![px(0, 255, 0); 4]);
}

#[test]
fn restore_to_previous_reverts_the_blit() {
    // Frame 1 paints everything green; frame 2 overlays blue everywhere
    // with restore-to-previous; frame 3 is empty and must show green again.
    let base = full_frame(2, 2, 1);
    let mut overlay = full_frame(2, 2, 2);
    overlay.disposal = Disposal::Previous;
    let empty = SubFrame {
        left: 0,
        top: 0,
        width: 0,
        height: 0,
        delay: 10,
        transparent: None,
        disposal: Disposal::Keep,
        palette: None,
        pixels: vec![],
    };
    let frames = compose_frames(&vec![base, overlay, empty], &palette(), 2, 2).unwrap();
    assert_eq!(frames[1].pixels, vec![px(0, 0, 255); 4]);
    assert_eq!(frames[2].pixels, vec![px(0, 255, 0); 4]);
}

#[test]
fn keep_disposal_leaves_the_overlay() {
    let base = full_frame(2, 2, 1);
    let mut dot = full_frame(1, 1, 2);
    dot.disposal = Disposal::Keep;
    let empty = SubFrame {
        left: 0,
        top: 0,
        width: 0,
        height: 0,
        delay: 10,
        transparent: None,
        disposal: Disposal::Unspecified,
        palette: None,
        pixels: vec![],
    };
    let frames = compose_frames(&vec![base, dot, empty], &palette(), 2, 2).unwrap();
    let green = px(0, 255, 0);
    assert_eq!(frames[2].pixels, vec![px(0, 0, 255), green, green, green]);
}

#[test]
fn local_palette_overrides_global() {
    let mut sub = full_frame(1, 1, 0);
    sub.palette = Some(vec![7, 8, 9]);
    let frames = compose_frames(&vec![sub], &palette(), 1, 1).unwrap();
    assert_eq!(frames[0].pixels, vec![px(7, 8, 9)]);
}

#[test]
fn sub_frame_is_clipped_to_the_canvas() {
    // A 2x2 sub-frame whose right column and bottom row hang over the
    // edge of a 2x2 canvas when placed at (1, 1).
    let mut sub = full_frame(2, 2, 2);
    sub.left = 1;
    sub.top = 1;
    let frames = compose_frames(&vec![sub], &palette(), 2, 2).unwrap();
    assert_eq!(frames[0].pixels, vec![CLEAR, CLEAR, CLEAR, px(0, 0, 255)]);
}

#[test]
fn invalid_colour_index_is_rejected() {
    // Index 4 points past the 4-entry palette.
    let sub = full_frame(1, 1, 4);
    assert_eq!(
        expect_err(compose_frames(&vec![sub], &palette(), 1, 1)),
        DecodeError::InvalidColorIndex
    );
}

#[test]
fn transparent_out_of_table_index_is_allowed() {
    // Index 200 is out of the table but declared transparent, so it is
    // never resolved.
    let mut base = full_frame(1, 1, 0);
    let mut sub = full_frame(1, 1, 200);
    base.disposal = Disposal::Keep;
    sub.transparent = Some(200);
    let frames = compose_frames(&vec![base, sub], &palette(), 1, 1).unwrap();
    assert_eq!(frames[1].pixels, vec![px(255, 0, 0)]);
}

#[test]
fn pixel_count_mismatch_is_malformed() {
    let mut sub = full_frame(2, 2, 0);
    sub.pixels = vec![0; 3];
    assert_eq!(expect_err(compose_frames(&vec![sub], &palette(), 2, 2)), DecodeError::Malformed);
}

#[test]
fn first_failing_sub_frame_decides_the_error() {
    let good = full_frame(1, 1, 0);
    let mut bad_size = full_frame(1, 1, 0);
    bad_size.pixels = vec![];
    let bad_index = full_frame(1, 1, 100);
    assert_eq!(
        expect_err(compose_frames(&vec![good, bad_size, bad_index], &palette(), 1, 1)),
        DecodeError::Malformed
    );
    let good2 = full_frame(1, 1, 0);
    let bad_index2 = full_frame(1, 1, 100);
    let mut bad_size2 = full_frame(1, 1, 0);
    bad_size2.pixels = vec![];
    assert_eq!(
        expect_err(compose_frames(&vec![good2, bad_index2, bad_size2], &palette(), 1, 1)),
        DecodeError::InvalidColorIndex
    );
}

#[test]
fn no_sub_frames_compose_to_no_frames() {
    let frames = compose_frames(&vec![], &palette(), 2, 2).unwrap();
    assert_eq!(frames.len(), 0);
}

#[test]
fn delay_is_converted_from_hundredths_to_microseconds() {
    let mut sub = full_frame(1, 1, 0);
    sub.delay = 0;
    let mut sub2 = full_frame(1, 1, 0);
    sub2.delay = 65535;
    let frames = compose_frames(&vec![sub, sub2], &palette(), 1, 1).unwrap();
    assert_eq!(frames[0].delay_us, 0);
    assert_eq!(frames[1].delay_us, 655_350_000);
}
