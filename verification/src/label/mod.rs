//! The strip at the top of each output that says to whom the focused window belongs.
pub mod bar;
pub mod font;
pub mod font_data;
pub mod heard;
pub mod niri;
pub mod outputs;
pub mod session;
pub mod space;
pub mod strip;
