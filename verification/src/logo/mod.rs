//! The diamond logo: colors, frame layout and the animation timeline.

pub mod color;
pub mod frame;
pub mod logo;
pub mod piece;
pub mod timeline;
