//! Directory listing laid out in terminal columns.
//!
//! `entry` turns directory entries into styled tokens, `packer` arranges the
//! tokens into columns that fit the terminal, and `render` computes the cursor
//! positions at which the columns are drawn.
pub mod entry;
pub mod packer;
pub mod render;
