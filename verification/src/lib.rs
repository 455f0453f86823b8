//! Decode an animated GIF into fully composited RGBA frames and play the
//! sequence back in an endless loop.
//!
//! GIF stores each frame as an indexed-colour sub-image with a disposal
//! method; producing correct pixels requires compositing every sub-image
//! onto a persistent logical canvas.  The compositor and the playback state
//! machine (current frame, elapsed time, pause flag) are verified; reading
//! bytes from disk and presenting textures are left to the host program.

pub mod compose;
pub mod decode;
pub mod frame;
pub mod laws;
pub mod play;
