use vstd::prelude::*;

verus! {

/// The one channel by which a handler asks the frame loop to stop.
pub struct Commands {
    pub should_close: bool,
}

impl Default for Commands {
    fn default() -> (commands: Self)
        ensures
            !commands.should_close,
    {
        Self { should_close: false }
    }
}

} // verus!
