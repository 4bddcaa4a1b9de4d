use vstd::prelude::*;

verus! {

/// Draws a question to confirm with yes or no.
pub struct ConfirmWidget;

} // verus!
