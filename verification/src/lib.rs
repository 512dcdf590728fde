//! The rules of a spaceflight sandbox: craft and their parts, staging, propellant, heat,
//! the celestial system, the guided mission, scripts, saves and what is drawn.
//!
//! Motion itself is computed by the caller in floating point. This crate carries such
//! numbers by their bit patterns, compares them exactly, and takes what only arithmetic
//! can give as arguments or as functions.

pub mod number;
pub mod text;

pub mod lineage;
pub mod search;

pub mod parts;
pub mod craft;
pub mod editor;
pub mod stats;
pub mod actions;

pub mod vessel;
pub mod fuel;
pub mod burn;
pub mod staging;
pub mod interval;
pub mod delta_v;
pub mod flight;
pub mod step;
pub mod orbit;
pub mod reach;
pub mod rails;
pub mod coast;
pub mod mission;
pub mod control;

pub mod script;
pub mod scripts;
pub mod vm;
pub mod transcript;
pub mod courses;
pub mod runtime;

pub mod save;
pub mod json;
pub mod debug_state;
pub mod session;
pub mod tick;

pub mod navball;
pub mod scene;
