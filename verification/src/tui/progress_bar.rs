use vstd::prelude::*;
use std::collections::HashMap;

verus! {

#[verifier::external_type_specification]
#[verifier::external_body]
pub struct ExInstant(std::time::Instant);

/// `Clone` of `std::time::Instant`, a `Copy` type: the clone is the same instant.
pub assume_specification[ <std::time::Instant as Clone>::clone ](i: &std::time::Instant) -> (r: std::time::Instant)
    ensures
        r == *i,
;

/// `std::time::Instant::now`: the current time; nothing is claimed of it.
#[verifier::external_body]
pub(crate) fn instant_now() -> std::time::Instant {
    std::time::Instant::now()
}

/// `Instant::duration_since(now, earlier).as_millis()`: the milliseconds from
/// `earlier` to `now`; nothing is claimed of the value.
#[verifier::external_body]
pub(crate) fn millis_between(now: std::time::Instant, earlier: std::time::Instant) -> u128 {
    now.duration_since(earlier).as_millis()
}

/// Progress of one download as the server reports it.
#[derive(Debug, Clone, Copy, PartialEq, Eq, Structural)]
pub struct ProgressState {
    pub id: u128,
    pub current_size: u64,
    pub current_speed: u64,
}

/// A number of bytes, shown with a binary unit.
#[derive(Debug, Clone, Copy, PartialEq, Eq, Structural)]
pub struct Bytes(pub u64);

/// `1024` to the power `k`.
pub open spec fn kib_pow(k: nat) -> nat
    decreases k,
{
    if k == 0 {
        1
    } else {
        1024 * kib_pow((k - 1) as nat)
    }
}

/// The unit a byte count is shown in: the largest of B, KB, MB, GB and TB that
/// leaves a value of at least one.
pub open spec fn unit_index_spec(n: u64) -> nat {
    if n >= kib_pow(4) {
        4
    } else if n >= kib_pow(3) {
        3
    } else if n >= kib_pow(2) {
        2
    } else if n >= kib_pow(1) {
        1
    } else {
        0
    }
}

impl Bytes {
    /// The number of bytes.
    pub fn count(&self) -> (r: u64)
        ensures
            r == self.0,
    {
        self.0
    }

    /// Index of the unit in `["B", "KB", "MB", "GB", "TB"]` that the count is shown in.
    pub fn unit_index(&self) -> (r: usize)
        ensures
            r == unit_index_spec(self.0),
    {
        proof {
            reveal_with_fuel(kib_pow, 5);
        }
        let n = self.0;
        if n >= 1099511627776 {
            4
        } else if n >= 1073741824 {
            3
        } else if n >= 1048576 {
            2
        } else if n >= 1024 {
            1
        } else {
            0
        }
    }

}

impl From<u64> for Bytes {
    fn from(value: u64) -> (r: Self) {
        Bytes(value)
    }
}

impl vstd::std_specs::convert::FromSpecImpl<u64> for Bytes {
    open spec fn obeys_from_spec() -> bool {
        true
    }

    open spec fn from_spec(value: u64) -> Self {
        Bytes(value)
    }
}

/// A bar that counts up to a size.
pub trait BasicBar: Sized {
    spec fn bar_size(&self) -> u64;

    spec fn bar_current(&self) -> u64;

    /// The same bar with its count replaced.
    spec fn with_current(&self, current: u64) -> Self;

    fn size(&self) -> (r: u64)
        ensures
            r == self.bar_size(),
    ;

    fn is_finished(&self) -> (r: bool)
        ensures
            r == (self.bar_current() == self.bar_size()),
    ;

    fn current_size(&self) -> (r: u64)
        ensures
            r == self.bar_current(),
    ;

    fn set_current_size(&mut self, current_size: u64)
        ensures
            *final(self) == old(self).with_current(current_size),
            final(self).bar_current() == current_size,
            final(self).bar_size() == old(self).bar_size(),
    ;
}

/// The count a bar shows after `delta` more bytes: it grows by `delta` but
/// never past the size.
pub open spec fn inc_spec(current: u64, size: u64, delta: u64) -> u64 {
    if current + delta <= size {
        (current + delta) as u64
    } else {
        size
    }
}

/// `list` without any entry of `id`.
pub open spec fn list_without(list: Seq<u128>, id: u128) -> Seq<u128> {
    list.filter(|i: u128| i != id)
}

/// The bar after `delta` more bytes: the count grows by `delta` but never
/// past the size; a bar already full stays as it is.
pub open spec fn inc_bar<B: BasicBar>(b: B, delta: u64) -> B {
    if b.bar_current() + delta <= b.bar_size() {
        b.with_current((b.bar_current() + delta) as u64)
    } else if b.bar_current() == b.bar_size() {
        b
    } else {
        b.with_current(b.bar_size())
    }
}

/// Bars whose count can grow.
pub trait Inc: BasicBar {
    /// Adds `delta` to the count, stopping at the size.
    fn inc(&mut self, delta: u64)
        ensures
            old(self).bar_current() + delta <= old(self).bar_size() ==> *final(self) == old(self).with_current(
                (old(self).bar_current() + delta) as u64,
            ),
            old(self).bar_current() + delta > old(self).bar_size() && old(self).bar_current() == old(self).bar_size()
                ==> *final(self) == *old(self),
            old(self).bar_current() + delta > old(self).bar_size() && old(self).bar_current() != old(self).bar_size()
                ==> *final(self) == old(self).with_current(old(self).bar_size()),
            final(self).bar_current() == inc_spec(old(self).bar_current(), old(self).bar_size(), delta),
            final(self).bar_size() == old(self).bar_size(),
    {
        let current = self.current_size();
        let size = self.size();
        if current <= size && delta <= size - current {
            self.set_current_size(current + delta);
        } else if current == size {
            return;
        } else {
            self.set_current_size(size);
        }
    }
}

impl<T: BasicBar> Inc for T {

}

/// The progress bar a client shows: a name, a count, a speed and a size.
#[derive(Debug, Clone)]
pub struct SimpleBar {
    name: String,
    current_size: u64,
    current_speed: u64,
    size: u64,
}

impl SimpleBar {
    pub closed spec fn spec_name(&self) -> Seq<char> {
        self.name@
    }

    pub closed spec fn spec_current_speed(&self) -> u64 {
        self.current_speed
    }

    pub fn new(name: String, size: u64) -> (r: Self)
        ensures
            r.spec_name() == name@,
            r.bar_size() == size,
            r.bar_current() == 0,
            r.spec_current_speed() == 0,
    {
        SimpleBar { name, current_size: 0, current_speed: 0, size }
    }

    pub fn current_size_format(&self) -> (r: Bytes)
        ensures
            r.0 == self.bar_current(),
    {
        Bytes::from(self.current_size)
    }

    pub fn size_format(&self) -> (r: Bytes)
        ensures
            r.0 == self.bar_size(),
    {
        Bytes::from(self.size)
    }

    /// Marks the download as done: the count reaches the size; the name, the
    /// size and the speed stay. Doing it again changes nothing more.
    pub fn inc_to_finished(&mut self)
        ensures
            *final(self) == old(self).with_current(old(self).bar_size()),
            final(self).bar_current() == final(self).bar_size(),
            final(self).bar_size() == old(self).bar_size(),
            final(self).spec_name() == old(self).spec_name(),
            final(self).spec_current_speed() == old(self).spec_current_speed(),
            old(self).bar_current() == old(self).bar_size() ==> *final(self) == *old(self),
    {
        self.current_size = self.size;
    }

    pub fn current_speed(&self) -> (r: Bytes)
        ensures
            r.0 == self.spec_current_speed(),
    {
        Bytes::from(self.current_speed)
    }

    pub fn name(&self) -> (r: &str)
        ensures
            r@ == self.spec_name(),
    {
        self.name.as_str()
    }

    /// The same bar showing another speed.
    pub closed spec fn with_speed(&self, speed: u64) -> Self {
        SimpleBar { current_speed: speed, ..*self }
    }

    pub fn set_current_speed(&mut self, current_speed: u64)
        ensures
            *final(self) == old(self).with_speed(current_speed),
            final(self).spec_current_speed() == current_speed,
            final(self).spec_name() == old(self).spec_name(),
            final(self).bar_current() == old(self).bar_current(),
            final(self).bar_size() == old(self).bar_size(),
    {
        self.current_speed = current_speed;
    }
}

impl BasicBar for SimpleBar {
    closed spec fn bar_size(&self) -> u64 {
        self.size
    }

    closed spec fn bar_current(&self) -> u64 {
        self.current_size
    }

    closed spec fn with_current(&self, current: u64) -> Self {
        SimpleBar { current_size: current, ..*self }
    }

    fn size(&self) -> (r: u64) {
        self.size
    }

    fn is_finished(&self) -> (r: bool) {
        self.current_size == self.size
    }

    fn current_size(&self) -> (r: u64) {
        self.current_size
    }

    fn set_current_size(&mut self, current_size: u64) {
        self.current_size = current_size;
    }
}

/// What a speed reading comes to: the last speed again when less than half a
/// second has passed since the last reading, otherwise a new measurement of the
/// bytes counted in the time that passed.
#[derive(Debug, Clone, Copy, PartialEq, Eq, Structural)]
pub enum SpeedUpdate {
    Keep(u64),
    Measure { progress: u64, elapsed_ms: u128, last_speed: u64 },
}

/// The progress bar the server keeps for a download; it also measures the speed.
#[derive(Clone)]
pub struct ProgressBar {
    name: String,
    current_size: u64,
    size: u64,
    last_size: u64,
    last_time: std::time::Instant,
    last_speed: u64,
}

impl ProgressBar {
    pub closed spec fn spec_name(&self) -> Seq<char> {
        self.name@
    }

    pub closed spec fn spec_last_size(&self) -> u64 {
        self.last_size
    }

    pub closed spec fn spec_last_speed(&self) -> u64 {
        self.last_speed
    }

    pub closed spec fn spec_last_time(&self) -> std::time::Instant {
        self.last_time
    }

    pub fn new(name: String, size: u64) -> (r: Self)
        ensures
            r.spec_name() == name@,
            r.bar_size() == size,
            r.bar_current() == 0,
            r.spec_last_size() == 0,
            r.spec_last_speed() == 0,
    {
        ProgressBar { name, current_size: 0, size, last_size: 0, last_speed: 0, last_time: instant_now() }
    }

    pub fn name(&self) -> (r: &str)
        ensures
            r@ == self.spec_name(),
    {
        self.name.as_str()
    }

    pub fn last_size(&self) -> (r: u64)
        ensures
            r == self.spec_last_size(),
    {
        self.last_size
    }

    /// The speed reading after `elapsed_ms` milliseconds since the last one.
    pub fn speed_update_after(&self, elapsed_ms: u128) -> (r: SpeedUpdate)
        requires
            elapsed_ms >= 500 ==> self.bar_current() >= self.spec_last_size(),
        ensures
            elapsed_ms < 500 ==> r == SpeedUpdate::Keep(self.spec_last_speed()),
            elapsed_ms >= 500 ==> r == (SpeedUpdate::Measure {
                progress: (self.bar_current() - self.spec_last_size()) as u64,
                elapsed_ms,
                last_speed: self.spec_last_speed(),
            }),
    {
        if elapsed_ms < 500 {
            SpeedUpdate::Keep(self.last_speed)
        } else {
            SpeedUpdate::Measure {
                progress: self.current_size - self.last_size,
                elapsed_ms,
                last_speed: self.last_speed,
            }
        }
    }

    /// The speed reading at `now`.
    pub fn speed_update(&self, now: std::time::Instant) -> (r: SpeedUpdate)
        requires
            self.bar_current() >= self.spec_last_size(),
        ensures
            r is Keep ==> r == SpeedUpdate::Keep(self.spec_last_speed()),
            r matches SpeedUpdate::Measure { progress, elapsed_ms, last_speed } ==> progress == self.bar_current()
                - self.spec_last_size() && last_speed == self.spec_last_speed() && elapsed_ms >= 500,
    {
        let elapsed = millis_between(now, self.last_time);
        self.speed_update_after(elapsed)
    }

    /// Records a new speed measured at `now`: the count at that time becomes
    /// the base of the next measurement.
    pub fn record_speed(&mut self, now: std::time::Instant, speed: u64)
        ensures
            final(self).spec_last_time() == now,
            final(self).spec_last_size() == old(self).bar_current(),
            final(self).spec_last_speed() == speed,
            final(self).bar_current() == old(self).bar_current(),
            final(self).bar_size() == old(self).bar_size(),
            final(self).spec_name() == old(self).spec_name(),
    {
        self.last_time = now;
        self.last_size = self.current_size;
        self.last_speed = speed;
    }

    /// The bar a client shows, with the given speed.
    pub fn to_simple_bar_with_speed(self, current_speed: u64) -> (r: SimpleBar)
        ensures
            r.spec_name() == self.spec_name(),
            r.bar_current() == self.bar_current(),
            r.bar_size() == self.bar_size(),
            r.spec_current_speed() == current_speed,
    {
        SimpleBar { name: self.name, current_size: self.current_size, current_speed, size: self.size }
    }

    /// The state sent to the clients, with the given speed.
    pub fn progress_state_with_speed(&self, id: u128, current_speed: u64) -> (r: ProgressState)
        ensures
            r == (ProgressState { id, current_size: self.bar_current(), current_speed }),
    {
        ProgressState { id, current_size: self.current_size, current_speed }
    }
}

impl SimpleBar {
    /// The bar the server keeps for this download; its speed is measured anew.
    pub fn to_progress_bar(self) -> (r: ProgressBar)
        ensures
            r.spec_name() == self.spec_name(),
            r.bar_current() == self.bar_current(),
            r.bar_size() == self.bar_size(),
            r.spec_last_size() == 0,
            r.spec_last_speed() == 0,
    {
        ProgressBar {
            name: self.name,
            current_size: self.current_size,
            size: self.size,
            last_size: 0,
            last_time: instant_now(),
            last_speed: 0,
        }
    }
}

impl BasicBar for ProgressBar {
    closed spec fn bar_size(&self) -> u64 {
        self.size
    }

    closed spec fn bar_current(&self) -> u64 {
        self.current_size
    }

    closed spec fn with_current(&self, current: u64) -> Self {
        ProgressBar { current_size: current, ..*self }
    }

    fn size(&self) -> (r: u64) {
        self.size
    }

    fn is_finished(&self) -> (r: bool) {
        self.current_size == self.size
    }

    fn current_size(&self) -> (r: u64) {
        self.current_size
    }

    fn set_current_size(&mut self, current_size: u64) {
        self.current_size = current_size;
    }
}

/// Whether `id` is in `list`.
fn list_holds(list: &Vec<u128>, id: u128) -> (r: bool)
    ensures
        r == list@.contains(id),
{
    let mut i: usize = 0;
    while i < list.len()
        invariant
            i <= list@.len(),
            forall|k: int| 0 <= k < i ==> list@[k] != id,
        decreases list@.len() - i,
    {
        if list[i] == id {
            assert(list@[i as int] == id);
            return true;
        }
        i = i + 1;
    }
    false
}

/// The ids of `list` that are not in `gone`, in order.
pub open spec fn kept(list: Seq<u128>, gone: Set<u128>) -> Seq<u128>
    decreases list.len(),
{
    if list.len() == 0 {
        list
    } else if gone.contains(list.last()) {
        kept(list.drop_last(), gone)
    } else {
        kept(list.drop_last(), gone).push(list.last())
    }
}

/// Dropping an id that a list does not hold changes nothing of what the list keeps.
pub proof fn lemma_kept_insert_absent(list: Seq<u128>, gone: Set<u128>, x: u128)
    requires
        !list.contains(x),
    ensures
        kept(list, gone.insert(x)) == kept(list, gone),
    decreases list.len(),
{
    if list.len() > 0 {
        assert(!list.drop_last().contains(x)) by {
            if list.drop_last().contains(x) {
                let m = choose|m: int| 0 <= m < list.drop_last().len() && list.drop_last()[m] == x;
                assert(list[m] == x);
            }
        }
        assert(list[list.len() - 1] == list.last());
        lemma_kept_insert_absent(list.drop_last(), gone, x);
    }
}

/// An id is kept exactly when the list holds it and it is not dropped.
pub proof fn lemma_kept_contains(list: Seq<u128>, gone: Set<u128>, k: u128)
    ensures
        kept(list, gone).contains(k) <==> (list.contains(k) && !gone.contains(k)),
    decreases list.len(),
{
    if list.len() > 0 {
        let init = list.drop_last();
        lemma_kept_contains(init, gone, k);
        assert forall|x: u128| list.contains(x) <==> (init.contains(x) || x == list.last()) by {
            if list.contains(x) {
                let m = choose|m: int| 0 <= m < list.len() && list[m] == x;
                if m < init.len() {
                    assert(init[m] == x);
                }
            }
            if init.contains(x) {
                let m = choose|m: int| 0 <= m < init.len() && init[m] == x;
                assert(list[m] == x);
            }
            if x == list.last() {
                assert(list[list.len() - 1] == x);
            }
        }
        if !gone.contains(list.last()) {
            let kk = kept(init, gone);
            assert forall|x: u128| kk.push(list.last()).contains(x) <==> (kk.contains(x) || x == list.last()) by {
                if kk.push(list.last()).contains(x) {
                    let m = choose|m: int| 0 <= m < kk.len() + 1 && kk.push(list.last())[m] == x;
                    if m < kk.len() {
                        assert(kk[m] == x);
                    }
                }
                if kk.contains(x) {
                    let m = choose|m: int| 0 <= m < kk.len() && kk[m] == x;
                    assert(kk.push(list.last())[m] == x);
                }
                if x == list.last() {
                    assert(kk.push(list.last())[kk.len() as int] == x);
                }
            }
        }
    }
}

/// What a set of bars holds: the ids in the order they were added (an id added
/// twice is listed twice) and the bar of each id.
pub struct ProgressSuitView<T> {
    pub list: Seq<u128>,
    pub bars: Map<u128, T>,
}

/// The bars of a set of downloads, kept in the order they were added.
#[derive(Debug)]
pub struct ProgressSuit<T> {
    list: Vec<u128>,
    state: HashMap<u128, T>,
}

impl<T> View for ProgressSuit<T> {
    type V = ProgressSuitView<T>;

    closed spec fn view(&self) -> ProgressSuitView<T> {
        ProgressSuitView { list: self.list@, bars: self.state@ }
    }
}

/// `HashMap::get_mut`: a mutable reference to the value held under `id`.
/// Claimed, as std documents it: there is one exactly when the map holds `id`;
/// it starts as the value held, and afterwards the map holds under `id` what
/// the reference ends with, every other key as before.
#[verifier::external_body]
fn held_bar_mut<T>(state: &mut HashMap<u128, T>, id: u128) -> (r: Option<&mut T>)
    ensures
        r is Some <==> old(state)@.contains_key(id),
        r is None ==> final(state)@ == old(state)@,
        r is Some ==> *r.unwrap() == old(state)@[id] && final(state)@ == old(state)@.insert(id, *final(r.unwrap())),
{
    state.get_mut(&id)
}

/// A list with one more id holds the ids it held and that one.
pub proof fn lemma_push_contains(list: Seq<u128>, x: u128)
    ensures
        forall|k: u128| #[trigger] list.push(x).contains(k) <==> (list.contains(k) || k == x),
{
    assert forall|k: u128| #[trigger] list.push(x).contains(k) <==> (list.contains(k) || k == x) by {
        if list.push(x).contains(k) {
            let m = choose|m: int| 0 <= m < list.len() + 1 && list.push(x)[m] == k;
            if m < list.len() {
                assert(list[m] == k);
            }
        }
        if list.contains(k) {
            let m = choose|m: int| 0 <= m < list.len() && list[m] == k;
            assert(list.push(x)[m] == k);
        }
        if k == x {
            assert(list.push(x)[list.len() as int] == k);
        }
    }
}

impl<T> ProgressSuit<T> {
    /// The listed ids are exactly the ids that hold a bar.
    pub closed spec fn wf(self) -> bool {
        forall|k: u128| self.state@.contains_key(k) <==> self.list@.contains(k)
    }

    pub fn new() -> (r: Self)
        ensures
            r.wf(),
            r@.list == Seq::<u128>::empty(),
            r@.bars == Map::<u128, T>::empty(),
    {
        ProgressSuit { list: Vec::new(), state: HashMap::new() }
    }

    /// Lists `id` and holds `bar` under it, replacing a bar held under the same id.
    pub fn add(&mut self, id: u128, bar: T)
        requires
            old(self).wf(),
        ensures
            final(self).wf(),
            final(self)@.list == old(self)@.list.push(id),
            final(self)@.bars == old(self)@.bars.insert(id, bar),
    {
        let ghost old_list = self.list@;
        self.state.insert(id, bar);
        self.list.push(id);
        proof {
            lemma_push_contains(old_list, id);
            assert forall|k: u128| self.state@.contains_key(k) <==> self.list@.contains(k) by {
                assert(self.list@.contains(k) == old_list.push(id).contains(k));
            }
        }
    }

    pub fn len(&self) -> (r: usize)
        ensures
            r == self@.list.len(),
    {
        self.list.len()
    }

    pub fn is_empty(&self) -> (r: bool)
        ensures
            r == (self@.list.len() == 0),
    {
        self.list.len() == 0
    }

    /// Removes `id` from the list, every time it is listed, and gives back its bar.
    pub fn remove(&mut self, id: u128) -> (r: Option<T>)
        requires
            old(self).wf(),
        ensures
            final(self).wf(),
            final(self)@.list == list_without(old(self)@.list, id),
            final(self)@.bars == old(self)@.bars.remove(id),
            r == (if old(self)@.bars.contains_key(id) { Some(old(self)@.bars[id]) } else { None::<T> }),
    {
        let ghost old_list = self.list@;
        let mut list: Vec<u128> = Vec::new();
        let mut n: usize = 0;
        while n < self.list.len()
            invariant
                n <= self.list@.len(),
                self.list@ == old_list,
                list@ == list_without(old_list.take(n as int), id),
                forall|k: u128| list@.contains(k) <==> (old_list.take(n as int).contains(k) && k != id),
            decreases self.list@.len() - n,
        {
            let x = self.list[n];
            let ghost before = list@;
            proof {
                assert(old_list.take(n + 1) =~= old_list.take(n as int).push(x));
                lemma_without_push(old_list.take(n as int), x, id);
                lemma_push_contains(old_list.take(n as int), x);
                lemma_push_contains(before, x);
            }
            if x != id {
                list.push(x);
            }
            proof {
                let t0 = old_list.take(n as int);
                let t1 = old_list.take(n + 1);
                assert forall|k: u128| list@.contains(k) <==> (t1.contains(k) && k != id) by {
                    assert(t1.contains(k) == t0.push(x).contains(k));
                    if x != id {
                        assert(list@.contains(k) == before.push(x).contains(k));
                    }
                }
            }
            n = n + 1;
        }
        proof { assert(old_list.take(old_list.len() as int) =~= old_list); }
        self.list = list;
        self.state.remove(&id)
    }

    /// The bar held under `id`, to be changed in place.
    pub fn get_bar_mut(&mut self, id: u128) -> (r: Option<&mut T>)
        requires
            old(self).wf(),
        ensures
            final(self).wf(),
            final(self)@.list == old(self)@.list,
            r is None ==> !old(self)@.bars.contains_key(id) && final(self)@.bars == old(self)@.bars,
            r matches Some(b) ==> old(self)@.bars.contains_key(id) && *b == old(self)@.bars[id]
                && final(self)@.bars == old(self)@.bars.insert(id, *final(b)),
    {
        held_bar_mut(&mut self.state, id)
    }

    /// Walks the bars in the order their ids are listed.
    pub fn iter(&self) -> (r: Iter<'_, T>)
        requires
            self.wf(),
        ensures
            r.wf(),
            r@.0 == self@.list,
            r@.1 == self@.bars,
    {
        Iter::new(self.list.as_slice(), &self.state)
    }

    /// The ids that hold a bar, each once, in the order they were first listed.
    pub fn ids(&self) -> (r: Vec<u128>)
        requires
            self.wf(),
        ensures
            r@.no_duplicates(),
            forall|k: u128| r@.contains(k) <==> self@.bars.contains_key(k),
    {
        let mut out: Vec<u128> = Vec::new();
        let mut i: usize = 0;
        while i < self.list.len()
            invariant
                i <= self.list@.len(),
                out@.no_duplicates(),
                forall|k: u128| out@.contains(k) <==> self.list@.take(i as int).contains(k),
            decreases self.list@.len() - i,
        {
            let id = self.list[i];
            proof {
                assert(self.list@.take(i + 1) =~= self.list@.take(i as int).push(id));
                lemma_push_contains(self.list@.take(i as int), id);
                lemma_push_contains(out@, id);
            }
            if !list_holds(&out, id) {
                let ghost before = out@;
                out.push(id);
                proof {
                    assert(out@ == before.push(id));
                    assert forall|a: int, b: int| 0 <= a < out@.len() && 0 <= b < out@.len() && a != b implies out@[a] != out@[b] by {
                        if a == before.len() {
                            assert(out@[b] == before[b]);
                        } else if b == before.len() {
                            assert(out@[a] == before[a]);
                        } else {
                            assert(out@[a] == before[a] && out@[b] == before[b]);
                        }
                    }
                }
            }
            i = i + 1;
        }
        proof { assert(self.list@.take(self.list@.len() as int) =~= self.list@); }
        out
    }

    /// The same ids, each bar turned into another by `f`.
    pub fn map_bars<U, F: Fn(u128, T) -> U>(self, f: F) -> (r: ProgressSuit<U>)
        requires
            self.wf(),
            forall|id: u128, t: T| #[trigger] f.requires((id, t)),
        ensures
            r.wf(),
            r@.list == self@.list,
            r@.bars.dom() == self@.bars.dom(),
            forall|k: u128| #[trigger] r@.bars.contains_key(k) ==> f.ensures((k, self@.bars[k]), r@.bars[k]),
    {
        let ids = self.ids();
        let ghost old_map = self@.bars;
        let ghost old_list = self@.list;
        let ProgressSuit { list, state } = self;
        let mut state = state;
        let mut out: HashMap<u128, U> = HashMap::new();
        let mut i: usize = 0;
        while i < ids.len()
            invariant
                i <= ids@.len(),
                ids@.no_duplicates(),
                forall|k: u128| ids@.contains(k) <==> old_map.contains_key(k),
                forall|id: u128, t: T| #[trigger] f.requires((id, t)),
                forall|k: u128| #[trigger] state@.contains_key(k) <==> (old_map.contains_key(k) && !ids@.take(i as int).contains(k)),
                forall|k: u128| #[trigger] state@.contains_key(k) ==> state@[k] == old_map[k],
                forall|k: u128| #[trigger] out@.contains_key(k) <==> ids@.take(i as int).contains(k),
                forall|k: u128| #[trigger] out@.contains_key(k) ==> f.ensures((k, old_map[k]), out@[k]),
            decreases ids@.len() - i,
        {
            let id = ids[i];
            proof {
                assert(ids@.take(i + 1) =~= ids@.take(i as int).push(id));
                lemma_push_contains(ids@.take(i as int), id);
                assert(ids@.contains(id)) by {
                    assert(ids@[i as int] == id);
                }
                assert(!ids@.take(i as int).contains(id)) by {
                    if ids@.take(i as int).contains(id) {
                        let m = choose|m: int| 0 <= m < i && ids@.take(i as int)[m] == id;
                        assert(ids@[m] == ids@[i as int]);
                    }
                }
            }
            match state.remove(&id) {
                Some(t) => {
                    let u = f(id, t);
                    out.insert(id, u);
                },
                None => {},
            }
            i = i + 1;
        }
        proof {
            assert(ids@.take(ids@.len() as int) =~= ids@);
            assert(out@.dom() =~= old_map.dom());
            assert(list@ == old_list);
        }
        ProgressSuit { list, state: out }
    }

    /// Keeps the bars for which `f` holds, in their order, and drops the others
    /// together with their ids; an id listed twice is decided once, at its
    /// first place.
    pub fn retain<F: Fn(&T) -> bool>(&mut self, f: F)
        requires
            old(self).wf(),
            forall|t: &T| #[trigger] f.requires((t,)),
        ensures
            final(self).wf(),
            exists|gone: Set<u128>|
                {
                    &&& forall|k: u128| #[trigger] old(self)@.list.contains(k) ==> (if gone.contains(k) {
                        f.ensures((&old(self)@.bars[k],), false)
                    } else {
                        f.ensures((&old(self)@.bars[k],), true)
                    })
                    &&& final(self)@.list == kept(old(self)@.list, gone)
                    &&& final(self)@.bars == old(self)@.bars.remove_keys(gone)
                },
    {
        let ghost old_list = self.list@;
        let ghost old_map = self@.bars;
        let ghost mut gone: Set<u128> = Set::empty();
        proof {
            assert(old_map.remove_keys(gone) =~= old_map);
        }
        let mut list: Vec<u128> = Vec::new();
        let mut n: usize = 0;
        while n < self.list.len()
            invariant
                n <= self.list@.len(),
                self.list@ == old_list,
                forall|t: &T| #[trigger] f.requires((t,)),
                self.state@ == old_map.remove_keys(gone),
                forall|k: u128| old_map.contains_key(k) <==> old_list.contains(k),
                forall|k: u128| gone.contains(k) ==> old_list.take(n as int).contains(k),
                list@ == kept(old_list.take(n as int), gone),
                forall|k: u128| #[trigger] old_list.take(n as int).contains(k) ==> (if gone.contains(k) {
                    f.ensures((&old_map[k],), false)
                } else {
                    f.ensures((&old_map[k],), true)
                }),
            decreases self.list@.len() - n,
        {
            let id = self.list[n];
            let ghost t0 = old_list.take(n as int);
            let ghost t1 = old_list.take(n + 1);
            proof {
                assert(t1 =~= t0.push(id));
                assert(t1.drop_last() =~= t0);
                assert(old_list.contains(id)) by {
                    assert(old_list[n as int] == id);
                }
                lemma_kept_contains(t0, gone, id);
                lemma_push_contains(t0, id);
            }
            if list_holds(&list, id) {
                list.push(id);
                proof {
                    assert(kept(t1, gone) == kept(t0, gone).push(id));
                }
            } else {
                match self.state.get(&id) {
                    None => {
                        proof {
                            assert(gone.contains(id));
                            assert(kept(t1, gone) == kept(t0, gone));
                        }
                    },
                    Some(bar) => {
                        proof {
                            assert(!gone.contains(id));
                            assert(!t0.contains(id));
                            assert(*bar == old_map[id]);
                        }
                        let keep = f(bar);
                        if keep {
                            list.push(id);
                            proof {
                                assert(kept(t1, gone) == kept(t0, gone).push(id));
                            }
                        } else {
                            let ghost before = self.state@;
                            self.state.remove(&id);
                            proof {
                                lemma_kept_insert_absent(t0, gone, id);
                                gone = gone.insert(id);
                                assert(self.state@ =~= old_map.remove_keys(gone));
                                assert(kept(t1, gone) == kept(t0, gone));
                            }
                        }
                    },
                }
            }
            proof {
                assert forall|k: u128| gone.contains(k) implies t1.contains(k) by {
                    assert(t1.contains(k) == t0.push(id).contains(k));
                }
                assert forall|k: u128| #[trigger] t1.contains(k) implies (if gone.contains(k) {
                    f.ensures((&old_map[k],), false)
                } else {
                    f.ensures((&old_map[k],), true)
                }) by {
                    assert(t1.contains(k) == t0.push(id).contains(k));
                }
            }
            n = n + 1;
        }
        proof {
            assert(old_list.take(old_list.len() as int) =~= old_list);
        }
        self.list = list;
        proof {
            assert forall|k: u128| self.state@.contains_key(k) <==> self.list@.contains(k) by {
                lemma_kept_contains(old_list, gone, k);
            }
            assert(old(self)@.list == old_list);
            assert(old(self)@.bars == old_map);
            assert(self@.list == kept(old_list, gone));
            assert(self@.bars == old_map.remove_keys(gone));
            assert(forall|k: u128| #[trigger] old_list.contains(k) ==> (if gone.contains(k) {
                f.ensures((&old_map[k],), false)
            } else {
                f.ensures((&old_map[k],), true)
            }));
        }
    }

}

/// Walk over the bars of a `ProgressSuit`, in the order their ids are listed.
pub struct Iter<'a, T> {
    list: &'a [u128],
    index: usize,
    state: &'a HashMap<u128, T>,
}

impl<'a, T> View for Iter<'a, T> {
    /// The ids still to visit, and the bar of each id.
    type V = (Seq<u128>, Map<u128, T>);

    closed spec fn view(&self) -> (Seq<u128>, Map<u128, T>) {
        (self.list@.skip(self.index as int), self.state@)
    }
}

impl<'a, T> Iter<'a, T> {
    /// Every id still to visit holds a bar.
    pub closed spec fn wf(&self) -> bool {
        &&& self.index <= self.list@.len()
        &&& forall|k: u128| self.list@.contains(k) ==> self.state@.contains_key(k)
    }

    fn new(list: &'a [u128], state: &'a HashMap<u128, T>) -> (r: Self)
        requires
            forall|k: u128| state@.contains_key(k) <==> list@.contains(k),
        ensures
            r.wf(),
            r@.0 == list@,
            r@.1 == state@,
    {
        proof { assert(list@.skip(0) =~= list@); }
        Iter { list, index: 0, state }
    }

    /// The bar of the next id, or `None` once every id was visited.
    pub fn next(&mut self) -> (r: Option<&'a T>)
        requires
            old(self).wf(),
        ensures
            final(self).wf(),
            old(self)@.0.len() == 0 ==> r is None && final(self)@ == old(self)@,
            old(self)@.0.len() > 0 ==> old(self)@.1.contains_key(old(self)@.0[0]) && r == Some(&old(self)@.1[old(self)@.0[0]]) && final(self)@.0
                == old(self)@.0.drop_first() && final(self)@.1 == old(self)@.1,
    {
        if self.index < self.list.len() {
            let id = self.list[self.index];
            proof {
                assert(self.list@.contains(id));
                assert(self.list@.skip(self.index as int)[0] == id);
                assert(self.list@.skip(self.index + 1) =~= self.list@.skip(self.index as int).drop_first());
            }
            match self.state.get(&id) {
                Some(bar) => {
                    self.index = self.index + 1;
                    Some(bar)
                },
                None => None,
            }
        } else {
            None
        }
    }
}

/// Sum of the speeds of the listed bars, an id listed twice counted twice.
pub open spec fn speed_total(list: Seq<u128>, bars: Map<u128, SimpleBar>) -> int
    decreases list.len(),
{
    if list.len() == 0 {
        0
    } else {
        speed_total(list.drop_last(), bars) + bars[list.last()].spec_current_speed()
    }
}

pub proof fn lemma_speed_total_mono(list: Seq<u128>, bars: Map<u128, SimpleBar>, n: int)
    requires
        0 <= n <= list.len(),
    ensures
        0 <= speed_total(list.take(n), bars) <= speed_total(list, bars),
    decreases list.len() - n,
{
    if n < list.len() {
        lemma_speed_total_mono(list, bars, n + 1);
        assert(list.take(n + 1).drop_last() =~= list.take(n));
    } else {
        assert(list.take(n) =~= list);
    }
    lemma_speed_total_nonneg(list.take(n), bars);
}

pub proof fn lemma_speed_total_nonneg(list: Seq<u128>, bars: Map<u128, SimpleBar>)
    ensures
        0 <= speed_total(list, bars),
    decreases list.len(),
{
    if list.len() > 0 {
        lemma_speed_total_nonneg(list.drop_last(), bars);
    }
}

/// Total speed of a set of bars.
pub trait SpeedSum {
    spec fn total_speed(&self) -> int;

    spec fn speed_ready(&self) -> bool;

    fn speed(&self) -> (r: Bytes)
        requires
            self.speed_ready(),
        ensures
            r.0 == self.total_speed(),
    ;
}

impl SpeedSum for ProgressSuit<SimpleBar> {
    open spec fn total_speed(&self) -> int {
        speed_total(self@.list, self@.bars)
    }

    /// The bars are consistent and their speeds add up to a `u64`.
    open spec fn speed_ready(&self) -> bool {
        self.wf() && speed_total(self@.list, self@.bars) <= u64::MAX
    }

    fn speed(&self) -> (r: Bytes) {
        let mut it = self.iter();
        let ghost list = self@.list;
        let ghost bars = self@.bars;
        let mut sum: u64 = 0;
        let ghost mut n: int = 0;
        loop
            invariant
                it.wf(),
                0 <= n <= list.len(),
                it@.0 == list.skip(n),
                it@.1 == bars,
                sum == speed_total(list.take(n), bars),
                speed_total(list, bars) <= u64::MAX,
            ensures
                sum == speed_total(list, bars),
            decreases list.len() - n,
        {
            match it.next() {
                Some(bar) => {
                    proof {
                        assert(list.skip(n)[0] == list[n]);
                        assert(list.take(n + 1).drop_last() =~= list.take(n));
                        lemma_speed_total_mono(list, bars, n + 1);
                        assert(list.skip(n).drop_first() =~= list.skip(n + 1));
                    }
                    sum = sum + bar.current_speed;
                    proof { n = n + 1; }
                },
                None => {
                    proof {
                        assert(list.take(n) =~= list);
                    }
                    break;
                },
            }
        }
        Bytes::from(sum)
    }
}

impl ProgressSuit<SimpleBar> {
    /// The total speed of the bars, or `None` when it does not fit in a `u64`.
    pub fn try_speed(&self) -> (r: Option<Bytes>)
        requires
            self.wf(),
        ensures
            r is Some <==> speed_total(self@.list, self@.bars) <= u64::MAX,
            r matches Some(b) ==> b.0 == speed_total(self@.list, self@.bars),
    {
        let mut it = self.iter();
        let ghost list = self@.list;
        let ghost bars = self@.bars;
        let mut sum: u64 = 0;
        let ghost mut n: int = 0;
        loop
            invariant
                it.wf(),
                0 <= n <= list.len(),
                it@.0 == list.skip(n),
                it@.1 == bars,
                sum == speed_total(list.take(n), bars),
                list == self@.list,
                bars == self@.bars,
            decreases list.len() - n,
        {
            match it.next() {
                Some(bar) => {
                    proof {
                        assert(list.skip(n)[0] == list[n]);
                        assert(list.take(n + 1).drop_last() =~= list.take(n));
                        lemma_speed_total_mono(list, bars, n + 1);
                        assert(list.skip(n).drop_first() =~= list.skip(n + 1));
                    }
                    match sum.checked_add(bar.current_speed) {
                        Some(s) => {
                            sum = s;
                            proof { n = n + 1; }
                        },
                        None => {
                            return None;
                        },
                    }
                },
                None => {
                    proof {
                        assert(list.take(n) =~= list);
                    }
                    return Some(Bytes::from(sum));
                },
            }
        }
    }
}

impl<T: Clone> Clone for ProgressSuit<T> {
    fn clone(&self) -> (r: Self)
        ensures
            r@ == self@,
            self.wf() ==> r.wf(),
    {
        let mut list: Vec<u128> = Vec::new();
        let mut i: usize = 0;
        while i < self.list.len()
            invariant
                i <= self.list@.len(),
                list@ == self.list@.take(i as int),
            decreases self.list@.len() - i,
        {
            list.push(self.list[i]);
            proof { assert(self.list@.take(i as int).push(self.list@[i as int]) =~= self.list@.take(i + 1)); }
            i = i + 1;
        }
        proof { assert(self.list@.take(self.list@.len() as int) =~= self.list@); }
        ProgressSuit { list, state: self.state.clone() }
    }
}

/// A bar's count never passes its size once it was counted up, and counting up
/// never lowers a count that lay within the size.
pub proof fn law_inc_stays_within_size(current: u64, size: u64, delta: u64)
    ensures
        inc_spec(current, size, delta) <= size,
        current <= size ==> current <= inc_spec(current, size, delta),
        current <= size ==> inc_spec(current, size, delta) == if current + delta <= size {
            current + delta
        } else {
            size as int
        },
{
}

/// Dropping `id` from a list with one more entry drops it from the list and
/// keeps the entry unless it is `id`.
pub proof fn lemma_without_push(list: Seq<u128>, x: u128, id: u128)
    ensures
        list_without(list.push(x), id) == if x != id { list_without(list, id).push(x) } else { list_without(list, id) },
{
    reveal(Seq::filter);
    assert(list.push(x).drop_last() =~= list);
}

/// Keeping only the ids that differ from one the list does not hold keeps the whole list.
pub proof fn lemma_filter_other(list: Seq<u128>, id: u128)
    requires
        !list.contains(id),
    ensures
        list_without(list, id) == list,
    decreases list.len(),
{
    reveal(Seq::filter);
    if list.len() > 0 {
        assert(!list.drop_last().contains(id)) by {
            if list.drop_last().contains(id) {
                let m = choose|m: int| 0 <= m < list.drop_last().len() && list.drop_last()[m] == id;
                assert(list[m] == id);
            }
        }
        lemma_filter_other(list.drop_last(), id);
        assert(list[list.len() - 1] == list.last());
        assert(list.drop_last().push(list.last()) =~= list);
    }
}

/// Adding a bar under a new id and removing that id again gives back the same
/// bars, listed as before, and hands back the bar that was added.
pub proof fn law_add_then_remove<T>(list: Seq<u128>, bars: Map<u128, T>, id: u128, bar: T)
    requires
        !list.contains(id),
        !bars.contains_key(id),
    ensures
        list_without(list.push(id), id) == list,
        bars.insert(id, bar).remove(id) == bars,
        bars.insert(id, bar).contains_key(id) && bars.insert(id, bar)[id] == bar,
{
    reveal(Seq::filter);
    assert(list.push(id).drop_last() =~= list);
    lemma_filter_other(list, id);
    assert(bars.insert(id, bar).remove(id) =~= bars);
}

} // verus!
