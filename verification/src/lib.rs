//! Procedural generation of flag-like raster images: a striped background
//! with an optional geometric emblem painted over it.
//!
//! [`random_flag`] samples a flag and renders it; [`create_flag`] renders a
//! flag from a given background and emblem. Contracts speak of a rendered
//! flag through [`canvas::image_size`] and [`canvas::image_pixels`].

pub mod background;
pub mod canvas;
pub mod color;
pub mod flag;
pub mod foreground;
pub mod rng;
pub mod shape;

pub use crate::background::FlagBackground;
pub use crate::canvas::FlagImage;
pub use crate::color::{random_color, Color};
pub use crate::flag::{create_flag, fit_foreground, random_design, random_flag, wants_foreground};
pub use crate::foreground::FlagForeground;
pub use crate::shape::FlagForegroundShape;
