//! Procedural pixel-art walking figure: a four-frame sprite sheet drawn from
//! flat-colour rectangles, and the timer that steps through its frames.

pub mod anim;
pub mod canvas;
pub mod color;
pub mod figure;
