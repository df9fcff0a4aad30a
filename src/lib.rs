//! A catalog of hardware development boards, built from a directory tree of
//! per-board metadata files with optional sibling images and examples.

pub mod meta;
pub mod board;
pub mod catalog;
pub mod names;
pub mod picture;
pub mod standard;
