//! Drawing state and decision logic of a screen annotation overlay.
//!
//! Coordinates are whole logical pixels in the X11 coordinate range (`i16`),
//! colour channels are thousandths of full intensity, and line widths are
//! whole pixels. The windowing, rendering and X11 plumbing live outside this
//! library; everything that decides what happens to the drawing lives here.
pub mod state;
pub mod input;
pub mod overlay;
pub mod toolbar;
pub mod platform;
pub mod stroke;
pub mod config;
pub mod laws;
