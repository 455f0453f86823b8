//! The data the decoder works on: pixels, raw sub-frames as they sit in the
//! file, fully composited frames, and the decode error taxonomy.

use vstd::prelude::*;

verus! {

/// One fully realised pixel: red, green, blue, alpha.
#[derive(Clone, Copy, PartialEq, Eq, Structural, Debug)]
pub struct Rgba {
    pub red: u8,
    pub green: u8,
    pub blue: u8,
    pub alpha: u8,
}

/// The colour of a canvas position that nothing has been drawn onto yet,
/// and of a position cleared by the restore-to-background disposal.
pub open spec fn clear_colour() -> Rgba {
    Rgba { red: 0, green: 0, blue: 0, alpha: 0 }
}

/// How the canvas region of a sub-frame is to be reset before the next
/// sub-frame is composited.
#[derive(Clone, Copy, PartialEq, Eq, Structural, Debug)]
pub enum Disposal {
    /// The file left the method unspecified; the canvas is kept as it is.
    Unspecified,
    /// Keep the canvas as it is.
    Keep,
    /// Clear the sub-frame's rectangle back to the transparent background.
    Background,
    /// Revert the sub-frame's rectangle to its state before the blit.
    Previous,
}

/// Why a byte stream could not be turned into an animation.
#[derive(Clone, Copy, PartialEq, Eq, Structural, Debug)]
pub enum DecodeError {
    /// The stream is not a well-formed GIF: bad header, corrupt or
    /// truncated block.
    Malformed,
    /// A pixel refers to a colour-table entry that does not exist.
    InvalidColorIndex,
    /// The stream parsed but yielded no frame at all.
    EmptyAnimation,
}

/// One frame as stored in the file: an indexed pixel buffer together with
/// its placement on the logical canvas and its display metadata.
pub struct SubFrame {
    /// Offset of the sub-image from the left border of the canvas.
    pub left: u16,
    /// Offset of the sub-image from the top border of the canvas.
    pub top: u16,
    /// Width of the sub-image.
    pub width: u16,
    /// Height of the sub-image.
    pub height: u16,
    /// Display duration in hundredths of a second.
    pub delay: u16,
    /// Colour index rendered as fully transparent, if any.
    pub transparent: Option<u8>,
    /// How the canvas is reset after this frame is shown.
    pub disposal: Disposal,
    /// Local colour table as RGB triples, overriding the global one.
    pub palette: Option<Vec<u8>>,
    /// Row-major indexed pixels, `width * height` of them.
    pub pixels: Vec<u8>,
}

/// The mathematical image of a [`SubFrame`].
#[verifier::ext_equal]
pub ghost struct SubFrameView {
    pub left: int,
    pub top: int,
    pub width: int,
    pub height: int,
    pub delay: int,
    pub transparent: Option<u8>,
    pub disposal: Disposal,
    pub palette: Option<Seq<u8>>,
    pub pixels: Seq<u8>,
}

impl View for SubFrame {
    type V = SubFrameView;

    open spec fn view(&self) -> SubFrameView {
        SubFrameView {
            left: self.left as int,
            top: self.top as int,
            width: self.width as int,
            height: self.height as int,
            delay: self.delay as int,
            transparent: self.transparent,
            disposal: self.disposal,
            palette: match self.palette {
                Some(p) => Some(p@),
                None => None,
            },
            pixels: self.pixels@,
        }
    }
}

/// One composited frame: a canvas-sized RGBA buffer, ready for display,
/// with its display duration.
pub struct AnimationFrame {
    /// Row-major pixels covering the whole logical canvas.
    pub pixels: Vec<Rgba>,
    /// Display duration in microseconds.
    pub delay_us: u32,
}

/// The mathematical image of an [`AnimationFrame`].
#[verifier::ext_equal]
pub ghost struct FrameView {
    pub pixels: Seq<Rgba>,
    pub delay_us: u32,
}

impl View for AnimationFrame {
    type V = FrameView;

    open spec fn view(&self) -> FrameView {
        FrameView { pixels: self.pixels@, delay_us: self.delay_us }
    }
}

impl AnimationFrame {
    /// The pixel buffer flattened to bytes, four per pixel in RGBA order,
    /// as a texture upload wants it.
    pub fn rgba_bytes(&self) -> (out: Vec<u8>)
        ensures
            out@.len() == 4 * self.pixels@.len(),
            forall|i: int|
                0 <= i < self.pixels@.len() ==> out@[4 * i] == self.pixels@[i].red
                    && out@[4 * i + 1] == self.pixels@[i].green && out@[4 * i + 2]
                    == self.pixels@[i].blue && out@[4 * i + 3] == self.pixels@[i].alpha,
    {
        let mut out: Vec<u8> = Vec::new();
        let mut i: usize = 0;
        #[verifier::loop_isolation(false)]
        while i < self.pixels.len()
            invariant
                i <= self.pixels@.len(),
                out@.len() == 4 * i,
                forall|j: int|
                    0 <= j < i ==> out@[4 * j] == self.pixels@[j].red && out@[4 * j + 1]
                        == self.pixels@[j].green && out@[4 * j + 2] == self.pixels@[j].blue && out@[
                        4 * j + 3] == self.pixels@[j].alpha,
            decreases self.pixels@.len() - i,
        {
            let p = self.pixels[i];
            out.push(p.red);
            out.push(p.green);
            out.push(p.blue);
            out.push(p.alpha);
            i = i + 1;
        }
        out
    }
}

} // verus!
