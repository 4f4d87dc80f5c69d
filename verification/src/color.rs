//! Terminal colors and the ANSI escape strings they stand for.

use vstd::prelude::*;

verus! {

/// A terminal color selection, plus the reset marker that clears attributes.
pub enum TermColor {
    Black,
    Red,
    Green,
    Yellow,
    Blue,
    Magenta,
    Cyan,
    White,
    Reset,
}

/// The ANSI escape that sets the foreground to this color; for `Reset`, the
/// escape that clears all attributes.
pub open spec fn fg_escape(c: TermColor) -> Seq<char> {
    match c {
        TermColor::Black => "\u{1b}[30m"@,
        TermColor::Red => "\u{1b}[31m"@,
        TermColor::Green => "\u{1b}[32m"@,
        TermColor::Yellow => "\u{1b}[33m"@,
        TermColor::Blue => "\u{1b}[34m"@,
        TermColor::Magenta => "\u{1b}[35m"@,
        TermColor::Cyan => "\u{1b}[36m"@,
        TermColor::White => "\u{1b}[37m"@,
        TermColor::Reset => "\u{1b}[0m"@,
    }
}

/// The ANSI escape that sets the background to this color; for `Reset`, the
/// escape that clears all attributes.
pub open spec fn bg_escape(c: TermColor) -> Seq<char> {
    match c {
        TermColor::Black => "\u{1b}[40m"@,
        TermColor::Red => "\u{1b}[41m"@,
        TermColor::Green => "\u{1b}[42m"@,
        TermColor::Yellow => "\u{1b}[43m"@,
        TermColor::Blue => "\u{1b}[44m"@,
        TermColor::Magenta => "\u{1b}[45m"@,
        TermColor::Cyan => "\u{1b}[46m"@,
        TermColor::White => "\u{1b}[47m"@,
        TermColor::Reset => "\u{1b}[0m"@,
    }
}

/// The escape that clears all attributes.
pub open spec fn reset_escape() -> Seq<char> {
    "\u{1b}[0m"@
}

impl TermColor {
    /// The foreground escape string for this color.
    pub fn to_fg(&self) -> (r: String)
        ensures
            r@ == fg_escape(*self),
    {
        match self {
            TermColor::Black => "\u{1b}[30m".to_owned(),
            TermColor::Red => "\u{1b}[31m".to_owned(),
            TermColor::Green => "\u{1b}[32m".to_owned(),
            TermColor::Yellow => "\u{1b}[33m".to_owned(),
            TermColor::Blue => "\u{1b}[34m".to_owned(),
            TermColor::Magenta => "\u{1b}[35m".to_owned(),
            TermColor::Cyan => "\u{1b}[36m".to_owned(),
            TermColor::White => "\u{1b}[37m".to_owned(),
            TermColor::Reset => "\u{1b}[0m".to_owned(),
        }
    }

    /// The background escape string for this color.
    pub fn to_bg(&self) -> (r: String)
        ensures
            r@ == bg_escape(*self),
    {
        match self {
            TermColor::Black => "\u{1b}[40m".to_owned(),
            TermColor::Red => "\u{1b}[41m".to_owned(),
            TermColor::Green => "\u{1b}[42m".to_owned(),
            TermColor::Yellow => "\u{1b}[43m".to_owned(),
            TermColor::Blue => "\u{1b}[44m".to_owned(),
            TermColor::Magenta => "\u{1b}[45m".to_owned(),
            TermColor::Cyan => "\u{1b}[46m".to_owned(),
            TermColor::White => "\u{1b}[47m".to_owned(),
            TermColor::Reset => "\u{1b}[0m".to_owned(),
        }
    }
}

} // verus!
