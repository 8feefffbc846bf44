//! An incremental parser and execution engine for a small visual-novel
//! script language: plain text mixing `[speaker] dialogue` blocks, `# ...`
//! comment lines, and `@name(args)` directives that alter playback state or
//! transfer control to another script file.
//!
//! The parsing layer (`parse`, `util`) is defined by spec functions over the
//! source text and proved to follow them exactly; the `engine` owns a script
//! cursor and runs directive effects, asking its caller to perform the file
//! reads it cannot do itself.

pub mod directive;
pub mod engine;
pub mod error;
pub mod parse;
pub mod util;
