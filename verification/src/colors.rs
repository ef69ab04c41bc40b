//! Terminal colors: the palette used when echoing information to the
//! caller's console, and the escape-code wrapping of a string.

use vstd::prelude::*;

verus! {

/// The color palette of console output.
#[derive(Clone, Copy, Debug, PartialEq, Eq, Structural)]
pub enum Color {
    Black,
    DarkBlue,
    DarkGreen,
    DarkAqua,
    DarkRed,
    DarkPurple,
    Gold,
    Gray,
    DarkGray,
    Blue,
    Green,
    Aqua,
    Red,
    LightPurple,
    Yellow,
    White,
    Reset,
}

impl Color {
    /// The ANSI escape code of this color.
    pub open spec fn spec_code(self) -> Seq<char> {
        match self {
            Color::Black => "\x1b[30m"@,
            Color::DarkBlue => "\x1b[34m"@,
            Color::DarkGreen => "\x1b[32m"@,
            Color::DarkAqua => "\x1b[36m"@,
            Color::DarkRed => "\x1b[31m"@,
            Color::DarkPurple => "\x1b[35m"@,
            Color::Gold => "\x1b[33m"@,
            Color::Gray => "\x1b[37m"@,
            Color::DarkGray => "\x1b[90m"@,
            Color::Blue => "\x1b[94m"@,
            Color::Green => "\x1b[92m"@,
            Color::Aqua => "\x1b[96m"@,
            Color::Red => "\x1b[91m"@,
            Color::LightPurple => "\x1b[95m"@,
            Color::Yellow => "\x1b[93m"@,
            Color::White => "\x1b[97m"@,
            Color::Reset => "\x1b[0m"@,
        }
    }

    /// The ANSI escape code of this color.
    pub fn to_str(&self) -> (r: &'static str)
        ensures
            r@ == self.spec_code(),
    {
        match self {
            Color::Black => "\x1b[30m",
            Color::DarkBlue => "\x1b[34m",
            Color::DarkGreen => "\x1b[32m",
            Color::DarkAqua => "\x1b[36m",
            Color::DarkRed => "\x1b[31m",
            Color::DarkPurple => "\x1b[35m",
            Color::Gold => "\x1b[33m",
            Color::Gray => "\x1b[37m",
            Color::DarkGray => "\x1b[90m",
            Color::Blue => "\x1b[94m",
            Color::Green => "\x1b[92m",
            Color::Aqua => "\x1b[96m",
            Color::Red => "\x1b[91m",
            Color::LightPurple => "\x1b[95m",
            Color::Yellow => "\x1b[93m",
            Color::White => "\x1b[97m",
            Color::Reset => "\x1b[0m",
        }
    }
}

impl Default for Color {
    /// The color used when none is configured.
    fn default() -> (r: Self)
        ensures
            r == Color::Gray,
    {
        Color::Gray
    }
}

/// Wraps `string` in the escape codes that render it in `color` and then
/// reset the terminal.
pub fn colorize(string: &str, color: Color) -> (r: String)
    ensures
        r@ == color.spec_code() + string@ + Color::Reset.spec_code(),
{
    let mut out = String::from_str(color.to_str());
    out.append(string);
    out.append(Color::Reset.to_str());
    out
}

} // verus!
