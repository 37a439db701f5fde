//! The system tray: items that applications register on the session bus, their
//! menus, and what clicks on them ask for.
use vstd::prelude::*;

pub mod protocol;
pub mod service;
pub mod types;
pub mod widget;

verus! {

} // verus!
