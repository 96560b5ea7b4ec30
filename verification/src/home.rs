//! The home screen's state.

use vstd::prelude::*;

verus! {

#[derive(Clone, Copy, Debug, PartialEq, Eq, Structural)]
pub enum Screen {
    Main,
}

pub struct Home {
    pub screen: Screen,
}

impl Home {
    pub fn new() -> (r: Self)
        ensures
            r.screen == Screen::Main,
    {
        Home { screen: Screen::Main }
    }
}

} // verus!
