//! The effects: what there is, what is switched on, and what each shows.

pub mod choices;
pub mod effects;
pub mod frames;
pub mod laws;
pub mod overlays;
pub mod presets;
pub mod previews;
pub mod scanlines;
pub mod ticks;
pub mod vignette;
