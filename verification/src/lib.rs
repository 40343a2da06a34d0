//! The logic of walldeck, a wallpaper picker for Wayland, with its behaviour
//! stated in contracts and proved by Verus: reading the configuration, listing
//! wallpapers, the picker's state and its rendering, the caches, and applying
//! a choice to the wallpaper backend.

pub mod apply;
pub mod blur;
pub mod canvas;
pub mod config;
pub mod feedback;
pub mod font;
pub mod images;
pub mod literal;
pub mod numerals;
pub mod order;
pub mod paths;
pub mod picker;
pub mod pixels;
pub mod render;
pub mod shape;
pub mod startup;
pub mod text;
pub mod theme;
pub mod thumbnails;
pub mod value;
pub mod wallpaper;
