//! The main window's title and size.

use vstd::prelude::*;

verus! {

pub struct Window {
    pub title: String,
    pub width: u32,
    pub height: u32,
}

impl Default for Window {
    /// "My Window", 800 by 600.
    fn default() -> (r: Self)
        ensures
            r.title@ == "My Window"@,
            r.width == 800,
            r.height == 600,
    {
        Window { title: "My Window".to_owned(), width: 800, height: 600 }
    }
}

} // verus!
