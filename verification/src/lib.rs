//! Game logic of the purpy platformer: fixed-point geometry, the tile map
//! and its collision rules, platforms, switches, the player's movement
//! state machine, menus and input recording.
use vstd::prelude::*;

pub mod constants;
pub mod geometry;
pub mod text;
pub mod error;
pub mod utils;
pub mod switchstate;
pub mod number;
pub mod properties;
pub mod tilemap;
pub mod smallintset;
pub mod tileset;
pub mod soundmanager;
pub mod platform;
pub mod sprite;
pub mod png;
pub mod rendercontext;
pub mod quads;
pub mod star;
pub mod warp;
pub mod inputmanager;
pub mod inputstate;
pub mod scene;
pub mod cursor;
pub mod uibutton;
pub mod menu;
pub mod player;
pub mod door;
pub mod level;
pub mod mapfile;
pub mod mapdraw;
pub mod options;
pub mod atlas;
pub mod package;
pub mod filemanager;
pub mod levelselect;
pub mod killscreen;
pub mod stagemanager;

verus! {

} // verus!
