//! The command `ping`.

use vstd::prelude::*;

verus! {

/// What `ping` answers.
pub fn ping() -> (text: &'static str)
    ensures
        text@ == "pong!"@,
{
    "pong!"
}

} // verus!
