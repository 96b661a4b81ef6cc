use vstd::prelude::*;

verus! {

/// Tick an item off (or back on).
pub const TAB: i32 = 9;

/// Leave the current screen, or end text input.
pub const ESC: i32 = 27;

/// Jump to the last entry.
pub const BG: i32 = 71;

/// Start typing a new topic or item.
pub const APPEND: i32 = 97;

/// Delete the selected topic or item.
pub const DELETE: i32 = 100;

/// Leave the current screen.
pub const EXIT: i32 = 101;

/// Twice in a row: jump to the first entry.
pub const SG: i32 = 103;

/// Move the selection down.
pub const DOWN: i32 = 106;

/// Move the selection up.
pub const UP: i32 = 107;

/// Save and quit, from the start screen.
pub const QUIT: i32 = 113;

/// Open the selected topic.
pub const SELECT: i32 = 115;

/// Go from the start screen to the topics.
pub const GO_TO_TODOS: i32 = 116;

/// Erase the last typed character.
pub const REMOVE: i32 = 127;

} // verus!
