//! Tools for code page 437 text art: the character table, the trailing
//! metadata record (finding, reading, checking, editing and writing it),
//! colour schemes, the escape-sequence interpreter that places each byte on
//! a grid, and a transcoder to UTF-8 terminal text.
pub mod colour;
pub mod cp437;
pub mod edit;
pub mod exit;
pub mod meta;
pub mod record;
pub mod render;
mod text;
pub mod transcode;
pub mod validate;

pub use colour::ColourScheme;
pub use cp437::{to_cp437, to_utf8};
pub use exit::ExitCode;
pub use meta::Meta;
