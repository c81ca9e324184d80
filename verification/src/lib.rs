//! Core logic of the VKawaii VTuber engine: the event bus, the node-graph
//! action executor, shader translation front ends, the parsing of tracking
//! and model data, and the decisions of the render and input loops.

pub mod events;
pub mod models;
pub mod physics;
pub mod rendering;
pub mod scripting;
pub mod streaming;
pub mod text;
pub mod tracking;
pub mod ui;
