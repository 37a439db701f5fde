//! A status bar for the niri compositor: its rules, parsers and state machines.
use vstd::prelude::*;

pub mod bar;
pub mod config;
pub mod desktop;
pub mod icon;
pub mod json;
pub mod layer_shell;
pub mod local_time;
pub mod logger;
pub mod modules;
pub mod names;
pub mod niri;
pub mod paths;
pub mod sorting;
pub mod startup;
pub mod style;
pub mod text;
pub mod toml_value;
pub mod util;

verus! {

} // verus!
