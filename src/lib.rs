//! Terminal sliders: vertical gauges bound to pluggable value sources.

pub mod accessor;
pub mod slider;
pub mod render;
pub mod panel;
pub mod args;
