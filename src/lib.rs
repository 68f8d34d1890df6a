//! A quasimode command launcher's input pipeline: the autocomplete index,
//! the selection menu, the quasimode state machine, virtual keys, the
//! hotkey configuration loader and the consumer-side session logic.
use vstd::prelude::*;

pub mod autocomplete;
pub mod commands;
pub mod event_loop;
pub mod hotkeys;
pub mod keys;
pub mod menu;
pub mod plugins;
pub mod quasimode;
pub mod session;
pub mod text;

verus! {

} // verus!
