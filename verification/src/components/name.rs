use vstd::prelude::*;

verus! {

/// The display name of an entity.
pub struct Name(pub &'static str);

impl Name {
    pub fn new(name: &'static str) -> (n: Self)
        ensures
            n.0@ == name@,
            n == Name(name),
    {
        Self(name)
    }
}

} // verus!
