//! The reactive core: a signal is a mutable cell with a version and a
//! set of subscribed computations; every write bumps the version and
//! notifies the subscribers, which a scheduler queues for recomputation
//! before the next paint. Dependencies are explicit: a tracked read
//! registers the reading computation as a subscriber.

use vstd::prelude::*;

verus! {

/// The mathematical image of a signal cell.
pub struct SignalModel<T> {
    pub value: T,
    pub version: u64,
    pub subscribers: Seq<u64>,
}

/// A mutable cell with change notification: the unit of reactive
/// state. Subscribers are the ids of the derived computations that
/// have read the cell and must be recomputed after a write.
pub struct Signal<T> {
    value: T,
    version: u64,
    subscribers: Vec<u64>,
}

impl<T> View for Signal<T> {
    type V = SignalModel<T>;

    closed spec fn view(&self) -> SignalModel<T> {
        SignalModel { value: self.value, version: self.version, subscribers: self.subscribers@ }
    }
}

impl<T> Signal<T> {
    /// No computation is registered twice.
    pub open spec fn wf(self) -> bool {
        forall|i: int, j: int|
            0 <= i < j < self@.subscribers.len() ==> self@.subscribers[i] != self@.subscribers[j]
    }

    /// A fresh cell: the given value, version 0, nobody subscribed.
    pub fn new(value: T) -> (s: Signal<T>)
        ensures
            s.wf(),
            s@.value == value,
            s@.version == 0,
            s@.subscribers.len() == 0,
    {
        Signal { value, version: 0, subscribers: Vec::new() }
    }

    /// An untracked read: the current value, nothing registered.
    pub fn read(&self) -> (r: &T)
        ensures
            *r == self@.value,
    {
        &self.value
    }

    /// The current version: how many writes the cell has seen.
    pub fn version(&self) -> (r: u64)
        ensures
            r == self@.version,
    {
        self.version
    }

    /// The registered subscribers, in registration order.
    pub fn subscribers(&self) -> (r: &Vec<u64>)
        ensures
            r@ == self@.subscribers,
    {
        &self.subscribers
    }

    /// Whether the computation with this id is subscribed.
    pub fn is_subscribed(&self, sub: u64) -> (r: bool)
        ensures
            r == self@.subscribers.contains(sub),
    {
        contains_u64(&self.subscribers, sub)
    }

    /// Register a computation: afterwards it is subscribed, everyone
    /// already subscribed stays in place, nobody is registered twice,
    /// and neither the value nor the version moves. A first
    /// registration goes to the back, so the list keeps registration
    /// order.
    pub fn subscribe(&mut self, sub: u64)
        requires
            old(self).wf(),
        ensures
            final(self).wf(),
            final(self)@.value == old(self)@.value,
            final(self)@.version == old(self)@.version,
            final(self)@.subscribers.contains(sub),
            old(self)@.subscribers.contains(sub) ==> final(self)@.subscribers == old(
                self,
            )@.subscribers,
            !old(self)@.subscribers.contains(sub) ==> final(self)@.subscribers == old(
                self,
            )@.subscribers.push(sub),
            forall|x: u64|
                #[trigger] final(self)@.subscribers.contains(x) <==> old(
                    self,
                )@.subscribers.contains(x) || x == sub,
    {
        if !contains_u64(&self.subscribers, sub) {
            self.subscribers.push(sub);
            proof {
                lemma_push_contains(old(self)@.subscribers, sub);
            }
        }
    }

    /// A tracked read, as performed inside a derived computation: the
    /// reader is registered as a subscriber, exactly as by `subscribe`,
    /// and the value returned.
    pub fn read_tracked(&mut self, sub: u64) -> (r: &T)
        requires
            old(self).wf(),
        ensures
            final(self).wf(),
            *r == old(self)@.value,
            final(self)@.value == old(self)@.value,
            final(self)@.version == old(self)@.version,
            final(self)@.subscribers.contains(sub),
            old(self)@.subscribers.contains(sub) ==> final(self)@.subscribers == old(
                self,
            )@.subscribers,
            !old(self)@.subscribers.contains(sub) ==> final(self)@.subscribers == old(
                self,
            )@.subscribers.push(sub),
            forall|x: u64|
                #[trigger] final(self)@.subscribers.contains(x) <==> old(
                    self,
                )@.subscribers.contains(x) || x == sub,
    {
        self.subscribe(sub);
        &self.value
    }

    /// Overwrite the value: the version moves up by one and the
    /// subscriber list stays as it was. The caller notifies (see
    /// `write_and_notify`).
    pub fn write(&mut self, value: T)
        requires
            old(self).wf(),
            old(self)@.version < u64::MAX,
        ensures
            final(self).wf(),
            final(self)@.value == value,
            final(self)@.version == old(self)@.version + 1,
            final(self)@.subscribers == old(self)@.subscribers,
    {
        self.value = value;
        self.version = self.version + 1;
        proof {
            assert(self@.subscribers == old(self)@.subscribers);
            assert forall|i: int, j: int|
                0 <= i < j < self@.subscribers.len() implies self@.subscribers[i]
                != self@.subscribers[j] by {
                assert(old(self)@.subscribers[i] != old(self)@.subscribers[j]);
            }
        }
    }

    /// Overwrite the value and queue every subscriber for
    /// recomputation: a write takes effect at once and everything
    /// derived from the cell is scheduled before the next paint.
    pub fn write_and_notify(&mut self, value: T, queue: &mut DirtyQueue)
        requires
            old(self).wf(),
            old(queue).wf(),
            old(self)@.version < u64::MAX,
        ensures
            final(self).wf(),
            final(queue).wf(),
            final(self)@.value == value,
            final(self)@.version == old(self)@.version + 1,
            final(self)@.subscribers == old(self)@.subscribers,
            forall|x: u64|
                #[trigger] final(queue)@.contains(x) <==> old(queue)@.contains(x) || old(
                    self,
                )@.subscribers.contains(x),
    {
        self.write(value);
        let n = self.subscribers.len();
        let mut i: usize = 0;
        while i < n
            invariant
                self.wf(),
                queue.wf(),
                n == self@.subscribers.len(),
                i <= n,
                self@.value == value,
                self@.version == old(self)@.version + 1,
                self@.subscribers == old(self)@.subscribers,
                forall|x: u64|
                    #[trigger] queue@.contains(x) <==> old(queue)@.contains(x)
                        || self@.subscribers.take(i as int).contains(x),
            decreases n - i,
        {
            let sub = self.subscribers[i];
            queue.mark(sub);
            proof {
                let subs = self@.subscribers;
                assert(subs.take(i as int + 1) =~= subs.take(i as int).push(subs[i as int]));
                lemma_push_contains(subs.take(i as int), subs[i as int]);
            }
            i = i + 1;
        }
        proof {
            assert(self@.subscribers.take(n as int) =~= self@.subscribers);
        }
    }
}

/// The scheduler's queue of computations waiting to be recomputed,
/// each listed once, in the order first marked dirty.
pub struct DirtyQueue {
    pending: Vec<u64>,
}

impl View for DirtyQueue {
    type V = Seq<u64>;

    closed spec fn view(&self) -> Seq<u64> {
        self.pending@
    }
}

impl DirtyQueue {
    /// No computation is queued twice.
    pub open spec fn wf(self) -> bool {
        forall|i: int, j: int| 0 <= i < j < self@.len() ==> self@[i] != self@[j]
    }

    /// An empty queue.
    pub fn new() -> (q: DirtyQueue)
        ensures
            q.wf(),
            q@.len() == 0,
    {
        DirtyQueue { pending: Vec::new() }
    }

    /// Whether this computation is waiting.
    pub fn is_pending(&self, id: u64) -> (r: bool)
        ensures
            r == self@.contains(id),
    {
        contains_u64(&self.pending, id)
    }

    /// Queue a computation: afterwards it is pending, everything
    /// already pending stays in place, and nothing is queued twice.
    pub fn mark(&mut self, id: u64)
        requires
            old(self).wf(),
        ensures
            final(self).wf(),
            final(self)@.contains(id),
            old(self)@.contains(id) ==> final(self)@ == old(self)@,
            !old(self)@.contains(id) ==> final(self)@ == old(self)@.push(id),
            forall|x: u64|
                #[trigger] final(self)@.contains(x) <==> old(self)@.contains(x) || x == id,
    {
        if !contains_u64(&self.pending, id) {
            self.pending.push(id);
            proof {
                lemma_push_contains(old(self)@, id);
            }
        }
    }

    /// Hand the whole queue over for recomputation and empty it: what
    /// runs before the next paint is exactly what was pending, in
    /// first-marked order.
    pub fn take_all(&mut self) -> (r: Vec<u64>)
        ensures
            final(self).wf(),
            final(self)@.len() == 0,
            r@ == old(self)@,
    {
        let mut out: Vec<u64> = Vec::new();
        std::mem::swap(&mut out, &mut self.pending);
        out
    }
}

/// Membership of a pushed element: pushing adds exactly one id to what
/// the row contains.
proof fn lemma_push_contains(s: Seq<u64>, x: u64)
    ensures
        forall|y: u64| #[trigger] s.push(x).contains(y) <==> s.contains(y) || y == x,
{
    assert forall|y: u64| #[trigger] s.push(x).contains(y) implies s.contains(y) || y == x by {
        let k = choose|k: int| 0 <= k < s.push(x).len() && s.push(x)[k] == y;
        if k < s.len() {
            assert(s[k] == y);
        }
    }
    assert forall|y: u64| s.contains(y) || y == x implies #[trigger] s.push(x).contains(y) by {
        if y == x {
            assert(s.push(x)[s.len() as int] == x);
        } else {
            let k = choose|k: int| 0 <= k < s.len() && s[k] == y;
            assert(s.push(x)[k] == y);
        }
    }
}

/// Whether a row of ids holds the given one.
fn contains_u64(v: &Vec<u64>, x: u64) -> (r: bool)
    ensures
        r == v@.contains(x),
{
    let n = v.len();
    let mut i: usize = 0;
    while i < n
        invariant
            n == v@.len(),
            i <= n,
            forall|k: int| 0 <= k < i ==> v@[k] != x,
        decreases n - i,
    {
        if v[i] == x {
            return true;
        }
        i = i + 1;
    }
    false
}

} // verus!
