//! The logic of runner, a Wayland launcher that uses elephant as its backend:
//! settings, provider knowledge, elephant's wire format, the theme, window
//! matching and the launcher's state machine.
use vstd::prelude::*;

pub mod args;
pub mod capture;
pub mod config;
pub mod elephant;
pub mod providers;
pub mod text;
pub mod theme;
pub mod ui;

verus! {

} // verus!
