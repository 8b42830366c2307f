//! The counter component's state: one integer cell, three total
//! actions (increment, decrement, reset) and the values its views
//! derive from it (the doubled count, the parity label, and which of
//! the banner and the placeholder is shown).

use vstd::prelude::*;

verus! {

/// One user action on the counter.
#[derive(Clone, Copy, PartialEq, Eq, Structural, Debug)]
pub enum CounterOp {
    Increment,
    Decrement,
    Reset,
}

/// The count after one action, as a mathematical integer.
pub open spec fn op_step(count: int, op: CounterOp) -> int {
    match op {
        CounterOp::Increment => count + 1,
        CounterOp::Decrement => count - 1,
        CounterOp::Reset => 0,
    }
}

/// The count after a whole sequence of actions, starting from 0.
pub open spec fn apply_ops(ops: Seq<CounterOp>) -> int
    decreases ops.len(),
{
    if ops.len() == 0 {
        0
    } else {
        op_step(apply_ops(ops.drop_last()), ops.last())
    }
}

/// The actions performed since the most recent reset (all of them, if
/// no reset occurred).
pub open spec fn since_last_reset(ops: Seq<CounterOp>) -> Seq<CounterOp>
    decreases ops.len(),
{
    if ops.len() == 0 {
        Seq::empty()
    } else if ops.last() == CounterOp::Reset {
        Seq::empty()
    } else {
        since_last_reset(ops.drop_last()).push(ops.last())
    }
}

/// The sum of the +1 / -1 steps in a sequence of actions.
pub open spec fn step_sum(ops: Seq<CounterOp>) -> int
    decreases ops.len(),
{
    if ops.len() == 0 {
        0
    } else {
        step_sum(ops.drop_last()) + match ops.last() {
            CounterOp::Increment => 1int,
            CounterOp::Decrement => -1int,
            CounterOp::Reset => 0int,
        }
    }
}

/// After any sequence of actions the count equals the sum of the
/// +1 / -1 steps taken since the last reset.
pub proof fn lemma_count_is_step_sum_since_reset(ops: Seq<CounterOp>)
    ensures
        apply_ops(ops) == step_sum(since_last_reset(ops)),
    decreases ops.len(),
{
    if ops.len() == 0 {
    } else if ops.last() == CounterOp::Reset {
    } else {
        lemma_count_is_step_sum_since_reset(ops.drop_last());
        let tail = since_last_reset(ops.drop_last());
        assert(tail.push(ops.last()).drop_last() =~= tail);
    }
}

/// A sequence of actions never drives the count outside the machine
/// range (counter overflow is out of scope: such sequences are left
/// out).
pub open spec fn replay_in_range(ops: Seq<CounterOp>) -> bool {
    forall|k: int| 0 <= k <= ops.len() ==> i64::MIN <= #[trigger] apply_ops(ops.take(k)) <= i64::MAX
}

/// Run a whole sequence of actions from a fresh counter: the displayed
/// count is exactly what the action model says, and so, by
/// `lemma_count_is_step_sum_since_reset`, the sum of the steps since
/// the last reset.
pub fn replay(ops: &Vec<CounterOp>) -> (c: Counter)
    requires
        replay_in_range(ops@),
    ensures
        c@ == apply_ops(ops@),
{
    let n = ops.len();
    let mut c = Counter::new();
    let mut i: usize = 0;
    proof {
        assert(ops@.take(0) =~= Seq::<CounterOp>::empty());
    }
    while i < n
        invariant
            replay_in_range(ops@),
            n == ops@.len(),
            i <= n,
            c@ == apply_ops(ops@.take(i as int)),
        decreases n - i,
    {
        proof {
            let t = ops@.take(i as int + 1);
            assert(t.drop_last() =~= ops@.take(i as int));
            assert(t.last() == ops@[i as int]);
            assert(i64::MIN <= apply_ops(t) <= i64::MAX);
        }
        c.apply(ops[i]);
        i = i + 1;
    }
    proof {
        assert(ops@.take(n as int) =~= ops@);
    }
    c
}

/// Whether the celebratory banner is shown for a given count.
pub open spec fn banner_shown(count: int) -> bool {
    count >= 10
}

/// Whether the placeholder message is shown for a given count.
pub open spec fn placeholder_shown(count: int) -> bool {
    count < 10
}

/// Exactly one of the banner and the placeholder is visible at any
/// count.
pub proof fn lemma_banner_placeholder_exclusive(count: int)
    ensures
        banner_shown(count) <==> !placeholder_shown(count),
{
}

/// The counter's state: a single integer cell, initially 0.
pub struct Counter {
    count: i64,
}

impl View for Counter {
    type V = int;

    closed spec fn view(&self) -> int {
        self.count as int
    }
}

impl Counter {
    /// A fresh counter, at 0.
    pub fn new() -> (c: Counter)
        ensures
            c@ == 0,
    {
        Counter { count: 0 }
    }

    /// The displayed count.
    pub fn count(&self) -> (r: i64)
        ensures
            r as int == self@,
    {
        self.count
    }

    /// Add one to the count.
    pub fn increment(&mut self)
        requires
            old(self)@ < i64::MAX,
        ensures
            final(self)@ == old(self)@ + 1,
    {
        self.count = self.count + 1;
    }

    /// Take one from the count.
    pub fn decrement(&mut self)
        requires
            old(self)@ > i64::MIN,
        ensures
            final(self)@ == old(self)@ - 1,
    {
        self.count = self.count - 1;
    }

    /// Set the count back to 0.
    pub fn reset(&mut self)
        ensures
            final(self)@ == 0,
    {
        self.count = 0;
    }

    /// Perform one action.
    pub fn apply(&mut self, op: CounterOp)
        requires
            op == CounterOp::Increment ==> old(self)@ < i64::MAX,
            op == CounterOp::Decrement ==> old(self)@ > i64::MIN,
        ensures
            final(self)@ == op_step(old(self)@, op),
    {
        match op {
            CounterOp::Increment => self.increment(),
            CounterOp::Decrement => self.decrement(),
            CounterOp::Reset => self.reset(),
        }
    }

    /// The derived view `2 * count`.
    pub fn doubled(&self) -> (r: i64)
        requires
            2 * self@ <= i64::MAX,
            2 * self@ >= i64::MIN,
        ensures
            r as int == 2 * self@,
    {
        self.count * 2
    }

    /// Whether the count is even; holds for negative counts too.
    pub fn is_even(&self) -> (r: bool)
        ensures
            r <==> self@ % 2 == 0,
    {
        self.count % 2 == 0
    }

    /// The parity label: "Even" exactly when the count is divisible by
    /// two, "Odd" otherwise.
    pub fn parity_label(&self) -> (r: &'static str)
        ensures
            self@ % 2 == 0 ==> r@ == "Even"@,
            self@ % 2 != 0 ==> r@ == "Odd"@,
    {
        if self.is_even() {
            "Even"
        } else {
            "Odd"
        }
    }

    /// Whether the celebratory banner is visible.
    pub fn banner_visible(&self) -> (r: bool)
        ensures
            r == banner_shown(self@),
    {
        self.count >= 10
    }

    /// Whether the placeholder message is visible.
    pub fn placeholder_visible(&self) -> (r: bool)
        ensures
            r == placeholder_shown(self@),
    {
        self.count < 10
    }
}

} // verus!
