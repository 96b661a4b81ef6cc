//! A to-do store organised into named topics, its text encoding, and the
//! key-driven navigation that edits it.
pub mod item;
pub mod json;
pub mod memory;
pub mod keys;
pub mod nav;
