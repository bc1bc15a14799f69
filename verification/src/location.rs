//! Where a class meets.

use vstd::prelude::*;

verus! {

/// A room on a campus.
#[derive(Debug, Clone, PartialEq)]
pub struct Location {
    pub campus: String,
    pub building: String,
    pub room: String,
}

impl Default for Location {
    fn default() -> (r: Location)
        ensures
            r.campus@.len() == 0,
            r.building@.len() == 0,
            r.room@.len() == 0,
    {
        Location { campus: String::new(), building: String::new(), room: String::new() }
    }
}

} // verus!
