//! Colour selection and software PWM for an RGB LED driven from an HSV value.

pub mod color;
pub mod rgb_display;
pub mod sort;
pub mod util;

pub use rgb_display::new_frame;
pub use sort::{bubblesort, sort_by_key};
