//! Console themes.  A theme names the two colors used for decorated output.

use vstd::prelude::*;

use crate::colors::Color;
use crate::error::Error;

verus! {

/// A named pair of console colors.
#[derive(Debug, Clone)]
pub struct Theme {
    pub name: String,
    pub primary_color: Color,
    pub secondary_color: Color,
}

impl Theme {
    /// Loads the active theme.  No theme store exists yet, so this always
    /// yields the unnamed gray-on-gray default.
    pub fn load() -> (r: Result<Theme, Error>)
        ensures
            r matches Ok(t) && t.name@ == Seq::<char>::empty() && t.primary_color == Color::Gray
                && t.secondary_color == Color::Gray,
    {
        Ok(Theme { name: String::new(), primary_color: Color::Gray, secondary_color: Color::Gray })
    }
}

} // verus!
