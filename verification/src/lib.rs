//! Core engine of a desktop companion: an animated "buddy" that wanders or
//! follows the cursor in its own window, reacts to being dragged, and emits
//! timed speech lines shown as stacked bubble windows.
//!
//! Positions are measured in milli-pixels and times in milliseconds, so that
//! every rule of the engine is stated and proved over exact integer
//! arithmetic. The windowing, rendering and file plumbing around the engine
//! live outside this crate.

pub mod seqs;
pub mod vec2;
pub mod ease;
pub mod texture;
pub mod dialogue;
pub mod config;
pub mod buddy;
pub mod font_manager;
pub mod chatter;
pub mod rng;
pub mod monitor;
pub mod controller;
