//! Verified core of a Neovim GUI front end: highlight styles, the text grid
//! buffer, cursor and key handling, and the commands sent back to Neovim.

pub mod color;
pub mod style;
pub mod highlights;
pub mod keys;
pub mod text;
pub mod cursor;
pub mod textbuf;
pub mod commands;
pub mod handler;
pub mod opts;
pub mod factory;
pub mod boxdraw;
pub mod grid;
pub mod strings;
pub mod editor;
pub mod itemize;
pub mod shaping;
pub mod metrics;
