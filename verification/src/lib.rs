//! Core of a retained-mode UI toolkit: the widget tree, the per-tick
//! update/layout/render pipeline, dirty-flag propagation, and the two
//! parallel tree representations (style tree and layout tree) that bridge
//! widget declarations to a flex-layout engine and back to draw primitives.

pub mod context;
pub mod engine;
pub mod font_ctx;
pub mod layout;
pub mod pipeline;
pub mod render;
pub mod sketch;
pub mod state;
pub mod style;
pub mod theme;
pub mod update;
pub mod widget;
