//! What the bar knows of the compositor: windows, workspaces and outputs.
use vstd::prelude::*;

pub mod decode;
pub mod drag;
pub mod ipc;
pub mod model;
pub mod outputs;
pub mod state;
pub mod taskbar;

verus! {

} // verus!
