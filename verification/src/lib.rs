//! Core runtime of a speedrun-timing application: the autosplitter subsystem.
//!
//! An untrusted plugin is compiled and instantiated in a sandbox, ticked on a
//! drift-corrected schedule by a dedicated thread, and allowed to drive a
//! shared timer state machine through a narrow capability surface.  Its
//! user-configurable settings live in a shared map that round-trips through a
//! persisted scalar document.
//!
//! Everything that decides or computes lives here, verified; the surrounding
//! binary performs the I/O, the sleeping and the actual sandbox calls and
//! feeds the outcomes back in as plain values.

pub mod components;
pub mod config;
pub mod facade;
pub mod hotkeys;
pub mod menu;
pub mod sandbox;
pub mod scheduler;
pub mod splits;
pub mod settings;
pub mod text;
pub mod timer;
