//! What the pages decide: the rules behind the controls, without the controls.

pub mod color;
pub mod dashboard;
pub mod debounce;
pub mod fan_curve_geometry;
pub mod fan_page;
pub mod idle_settings;
pub mod palette;
pub mod schemes;
pub mod startup;
