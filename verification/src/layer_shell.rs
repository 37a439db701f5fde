//! What is said where the library that anchors the bar is missing.
use vstd::prelude::*;

verus! {

/// What to install where the library that anchors the bar is missing.
pub open spec fn missing_library() -> Seq<char> {
    "Missing required runtime library: gtk-layer-shell (libgtk-layer-shell.so.0).\nniri-bar requires gtk-layer-shell to anchor itself as a Wayland desktop panel.\nPlease install it using your package manager:\nFedora:        sudo dnf install gtk-layer-shell\nArch Linux:    sudo pacman -S gtk-layer-shell\nDebian/Ubuntu: sudo apt install libgtk-layer-shell0"@
}

/// What to install where the library that anchors the bar is missing.
pub fn missing_library_error_message() -> (r: &'static str)
    ensures
        r@ == missing_library(),
{
    "Missing required runtime library: gtk-layer-shell (libgtk-layer-shell.so.0).\nniri-bar requires gtk-layer-shell to anchor itself as a Wayland desktop panel.\nPlease install it using your package manager:\nFedora:        sudo dnf install gtk-layer-shell\nArch Linux:    sudo pacman -S gtk-layer-shell\nDebian/Ubuntu: sudo apt install libgtk-layer-shell0"
}

} // verus!
