use vstd::prelude::*;

verus! {

/// Number of kinds of waiters.
pub const WAITER_KIND_COUNT: usize = 3;

/// The tasks that can wait for a recovery signal.
#[derive(Debug, Clone, Copy, PartialEq, Eq, Structural)]
pub enum WaiterKind {
    RefreshRss,
    Test1,
    Test2,
}

impl WaiterKind {
    /// Position of the kind among all kinds.
    pub fn index(&self) -> (r: usize)
        ensures
            r < WAITER_KIND_COUNT,
            *self == WaiterKind::RefreshRss ==> r == 0,
            *self == WaiterKind::Test1 ==> r == 1,
            *self == WaiterKind::Test2 ==> r == 2,
    {
        match self {
            WaiterKind::RefreshRss => 0,
            WaiterKind::Test1 => 1,
            WaiterKind::Test2 => 2,
        }
    }
}

/// How many waiters wait, and which.
#[derive(Debug, Clone, Copy)]
pub struct Waiting {
    pub waiting_count: usize,
    pub states: [bool; WAITER_KIND_COUNT],
}

/// The number of `true` among `flags`.
pub open spec fn count_true(flags: Seq<bool>) -> nat
    decreases flags.len(),
{
    if flags.len() == 0 {
        0
    } else {
        count_true(flags.drop_last()) + if flags.last() { 1nat } else { 0nat }
    }
}

impl Default for Waiting {
    /// All waiters wait.
    fn default() -> (r: Self)
        ensures
            r.waiting_count == WAITER_KIND_COUNT,
            forall|i: int| 0 <= i < WAITER_KIND_COUNT ==> r.states@[i],
    {
        Waiting { waiting_count: WAITER_KIND_COUNT, states: [true; WAITER_KIND_COUNT] }
    }
}

impl Waiting {
    /// The waiting state given whether each waiter, by kind, waits.
    pub fn from_flags(flags: [bool; WAITER_KIND_COUNT]) -> (r: Waiting)
        ensures
            r.states@ == flags@,
            r.waiting_count == count_true(flags@),
    {
        let mut waiting_count: usize = 0;
        let mut states = [false; WAITER_KIND_COUNT];
        let mut i: usize = 0;
        while i < WAITER_KIND_COUNT
            invariant
                i <= WAITER_KIND_COUNT,
                waiting_count == count_true(flags@.take(i as int)),
                waiting_count <= i,
                forall|j: int| 0 <= j < i ==> states@[j] == flags@[j],
                forall|j: int| i <= j < WAITER_KIND_COUNT ==> !states@[j],
            decreases WAITER_KIND_COUNT - i,
        {
            proof { assert(flags@.take(i + 1).drop_last() =~= flags@.take(i as int)); }
            if flags[i] {
                waiting_count = waiting_count + 1;
                states[i] = true;
            }
            i = i + 1;
        }
        proof {
            assert(flags@.take(WAITER_KIND_COUNT as int) =~= flags@);
            assert(states@ =~= flags@);
        }
        Waiting { waiting_count, states }
    }
}

} // verus!
