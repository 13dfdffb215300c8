//! Appetizers on the menu, and their names.
use vstd::prelude::*;

verus! {

/// An appetizer.
#[derive(Debug, Clone, Copy, PartialEq, Eq, Structural)]
pub enum Appetizer {
    Soup,
    Salad,
}

/// The name of an appetizer.
pub open spec fn appetizer_name(app: Appetizer) -> Seq<char> {
    match app {
        Appetizer::Soup => "Soup"@,
        Appetizer::Salad => "Salad"@,
    }
}

/// The name of `app`, as a new string.
pub fn print_type(app: &Appetizer) -> (r: String)
    ensures
        r@ == appetizer_name(*app),
{
    match app {
        Appetizer::Soup => "Soup".to_owned(),
        Appetizer::Salad => "Salad".to_owned(),
    }
}

} // verus!
