//! Core logic of a live-updating desktop status bar.
//!
//! A bar is a thin window holding a row of widgets, each showing text derived
//! from a periodically re-evaluated command, with per-event visual overrides.
//! This crate holds the reactive core: the event and property resolution
//! model, the stateful command registry, the per-widget refresh state machine
//! and the bar layout and damage engine.  Opening the platform window, font
//! shaping and pixel drawing are left to the surrounding program, which drives
//! this core once per tick and performs the draw commands it returns.

pub mod event;
pub mod props;
pub mod utils;
pub mod draw;
pub mod command;
pub mod window;
pub mod bar;
pub mod config;

use vstd::prelude::*;

verus! {

} // verus!
