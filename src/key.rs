//! Toggle lock: a latch per axis that a momentary key flips once per press.

use vstd::prelude::*;

verus! {

/// The latch of one axis.
///
/// `value` is true while the axis is frozen. `locked` remembers that the
/// current press has already been consumed, so that holding the key down
/// flips the latch only once.
pub struct Key {
    pub value: bool,
    locked: bool,
}

/// One tick of the latch on its state `(latched, armed)`.
pub open spec fn step(state: (bool, bool), pressing: bool) -> (bool, bool) {
    (state.0 != (pressing && !state.1), pressing)
}

/// The state after feeding the key states of `ticks` in order.
pub open spec fn run(state: (bool, bool), ticks: Seq<bool>) -> (bool, bool)
    decreases ticks.len(),
{
    if ticks.len() == 0 {
        state
    } else {
        step(run(state, ticks.drop_last()), ticks.last())
    }
}

/// `n` ticks with the key held down.
pub open spec fn held(n: nat) -> Seq<bool> {
    Seq::new(n, |_i: int| true)
}

/// Holding the key from a released state: after each tick of the hold the
/// latch is the opposite of where it started.
pub proof fn lemma_hold(state: (bool, bool), n: nat)
    requires
        !state.1,
        n >= 1,
    ensures
        run(state, held(n)) == (!state.0, true),
    decreases n,
{
    assert(held(n).drop_last() =~= held((n - 1) as nat));
    assert(held(n).last());
    if n > 1 {
        lemma_hold(state, (n - 1) as nat);
    } else {
        assert(run(state, held(0)) == state);
    }
}

/// A press held for any number of ticks and then released changes the
/// latch exactly once: after every tick of the hold it is the opposite of
/// where it started, and once the key is let go it stays so, with the
/// gate ready for the next press.
pub proof fn lemma_one_flip_per_press(state: (bool, bool), n: nat)
    requires
        !state.1,
        n >= 1,
    ensures
        forall|i: nat| 1 <= i <= n ==> #[trigger] run(state, held(i)) == (!state.0, true),
        run(state, held(n).push(false)) == (!state.0, false),
{
    assert forall|i: nat| 1 <= i <= n implies #[trigger] run(state, held(i)) == (!state.0, true) by {
        lemma_hold(state, i);
    }
    lemma_hold(state, n);
    assert(held(n).push(false).drop_last() =~= held(n));
}

impl Key {
    /// True while the axis is frozen.
    pub closed spec fn latched(self) -> bool {
        self.value
    }

    /// True while a press has been consumed and the key is not yet released.
    pub closed spec fn armed(self) -> bool {
        self.locked
    }

    /// The latch after one tick in which the key is held or not.
    pub open spec fn next(self, pressing: bool) -> (bool, bool) {
        step((self.latched(), self.armed()), pressing)
    }

    /// A live latch with no press pending.
    pub fn new() -> (r: Key)
        ensures
            !r.latched(),
            !r.armed(),
    {
        Key { value: false, locked: false }
    }

    /// Whether the axis is frozen.
    pub fn is_frozen(&self) -> (r: bool)
        ensures
            r == self.latched(),
    {
        self.value
    }

    /// Feeds the key state of one tick to the latch.
    ///
    /// A fresh press flips `value`; further ticks of the same press change
    /// nothing; a release makes the next press count again.
    pub fn update(&mut self, pressing: bool)
        ensures
            (final(self).latched(), final(self).armed()) == old(self).next(pressing),
    {
        if self.locked {
            if !pressing {
                self.locked = false;
            }
            return;
        }
        if pressing {
            self.locked = true;
            self.value = !self.value;
        }
    }
}

} // verus!
