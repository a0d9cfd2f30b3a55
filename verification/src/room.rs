//! The users of a room.

use vstd::prelude::*;

verus! {

/// Someone who has come to a room, known by name.
#[derive(PartialEq, Eq, Hash)]
pub struct User {
    name: String,
}

impl User {
    /// The name of the user.
    pub closed spec fn named(&self) -> Seq<char> {
        self.name@
    }

    /// A user of the given name.
    pub fn new(name: &str) -> (user: Self)
        ensures
            user.named() == name@,
    {
        Self { name: name.to_owned() }
    }

    /// The name of the user.
    pub fn name(&self) -> (name: &str)
        ensures
            name@ == self.named(),
    {
        self.name.as_str()
    }
}

} // verus!
