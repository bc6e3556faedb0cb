//! A tiling window manager core: workspaces, window placement policy and
//! binary-space-partition tiling, with the display protocol kept outside.

pub mod classify;
pub mod error;
pub mod geometries;
pub mod grabs;
pub mod helpers;
pub mod keycode;
pub mod laws;
pub mod model;
pub mod resize;
pub mod state;
pub mod wm;
pub mod workspaces;
