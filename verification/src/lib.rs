//! A library of games, grouped into sections by the first character of their
//! sort keys, and the cursor that pages through it: forward and backward
//! across games and sections, round the ends, and in windows of a fixed size.
//!
//! The navigation engine is in [`library`], [`section`], [`character_section`],
//! [`cursor`] and [`navigation`]; [`traversal`] proves what holds of it.
//! [`vice_config`] merges the emulator's arguments.

pub mod catalog;
pub mod character_section;
pub mod cursor;
pub mod game;
pub mod library;
pub mod media;
pub mod navigation;
pub mod rom;
pub mod section;
pub mod sorting;
pub mod text;
pub mod traversal;
pub mod vice_config;
pub mod year;
