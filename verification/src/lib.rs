//! Verified core of a small deferred PBR renderer and its editor: asset
//! bookkeeping, render-target ping-pong, texture helpers, input state and the
//! editor's entity tree and message handling.

pub mod asset;
pub mod render;
pub mod editor;
pub mod text;
pub mod input;
pub mod engine;
pub mod material;
pub mod control;
