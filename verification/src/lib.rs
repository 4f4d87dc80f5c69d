//! An elementary one-dimensional cellular automaton and three terminal
//! renderings of its history: plain ASCII, half-block glyphs and braille
//! glyphs.

pub mod automaton;
pub mod color;
pub mod image;

pub use automaton::Bit;
pub use automaton::Ca;
pub use automaton::RuleTable;
pub use color::TermColor;
pub use image::TermImage;
