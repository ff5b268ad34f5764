//! Hand-gesture navigation: the geometry, parsing and decision logic behind
//! turning a stream of hand landmarks into workspace/column focus moves.

pub mod camera;
pub mod command;
pub mod config;
pub mod direction;
pub mod gesture;
pub mod hand;
pub mod landmark;
pub mod niri;
pub mod order;
pub mod pipeline;
pub mod point;
pub mod text;
pub mod track;
