//! Vegetables, each with a name and a number.
use vstd::prelude::*;

verus! {

/// A vegetable; its number is kept private.
pub struct Vegetable {
    pub name: String,
    id: i32,
}

impl Vegetable {
    /// The number of this vegetable.
    pub closed spec fn number(&self) -> i32 {
        self.id
    }

    /// The name of this vegetable.
    pub closed spec fn name_text(&self) -> Seq<char> {
        self.name@
    }

    /// A vegetable called `name`, with number 1.
    pub fn new(name: &str) -> (r: Vegetable)
        ensures
            r.name_text() == name@,
            r.number() == 1,
    {
        Vegetable { name: name.to_owned(), id: 1 }
    }

    /// The number of this vegetable.
    pub fn id(&self) -> (r: i32)
        ensures
            r == self.number(),
    {
        self.id
    }
}

} // verus!
