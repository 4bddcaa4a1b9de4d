use vstd::prelude::*;

verus! {

/// Commands to the animator: an animation starts or stops.
#[derive(Debug, Clone, Copy, PartialEq, Eq, Structural)]
pub enum AniCmd {
    Start,
    Stop,
}

/// The number of running animations after a command, and whether the
/// animator ticks: it does while any animation runs.
pub fn after_command(current: u64, cmd: AniCmd) -> (r: (u64, bool))
    requires
        cmd == AniCmd::Start ==> current < u64::MAX,
    ensures
        cmd == AniCmd::Start ==> r.0 == current + 1,
        cmd == AniCmd::Stop ==> r.0 == if current > 0 { (current - 1) as u64 } else { 0 },
        r.1 == (r.0 > 0),
{
    let next = match cmd {
        AniCmd::Start => current + 1,
        AniCmd::Stop => if current > 0 { current - 1 } else { 0 },
    };
    (next, next > 0)
}

} // verus!
