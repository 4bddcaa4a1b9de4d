use vstd::prelude::*;

verus! {

/// Draws the loading animation.
pub struct LoadingWidget;

/// Number of frames of the loading animation.
pub const FRAME_COUNT: u8 = 10;

/// The frames of the loading animation, in order.
pub open spec fn frames() -> Seq<&'static str> {
    seq!["⠋", "⠙", "⠹", "⠸", "⠼", "⠴", "⠦", "⠧", "⠇", "⠏"]
}

/// The frame shown for a state of the animation.
pub fn frame(state: u8) -> (r: &'static str)
    requires
        state < FRAME_COUNT,
    ensures
        r == frames()[state as int],
{
    let all = ["⠋", "⠙", "⠹", "⠸", "⠼", "⠴", "⠦", "⠧", "⠇", "⠏"];
    all[state as usize]
}

/// The state of the animation when it is drawn: it moves one frame on, back
/// to the first after the last, once the interval has passed since the last
/// move; `moved` tells whether it did.
pub fn next_frame_state(state: u8, interval_passed: bool) -> (r: (u8, bool))
    requires
        state < FRAME_COUNT,
    ensures
        r.0 < FRAME_COUNT,
        r.1 == interval_passed,
        !interval_passed ==> r.0 == state,
        interval_passed ==> r.0 == if state >= FRAME_COUNT - 1 { 0 } else { state + 1 },
{
    if interval_passed {
        if state >= FRAME_COUNT - 1 {
            (0, true)
        } else {
            (state + 1, true)
        }
    } else {
        (state, false)
    }
}

} // verus!
