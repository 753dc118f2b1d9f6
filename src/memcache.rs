//! A circular history of the most recent values of a stream.
//!
//! [`MemoryCacher`] keeps at most `N` values. Until it is full, each accepted value
//! is appended; from then on each accepted value overwrites the slot under the
//! cursor, which then moves on by one, wrapping around at `N`. The stored values
//! are handed out in slot order, which after wrapping around is not the order in
//! which they arrived.
use crate::time_based_structs::do_on_interval::DoOnInterval;
use vstd::arithmetic::div_mod::{lemma_add_mod_noop_right, lemma_mod_equivalence, lemma_small_mod};
use vstd::prelude::*;
use vstd::std_specs::iter::IteratorSpec;

verus! {

/// The abstract state of a history of capacity `n`: the slots in storage order,
/// and the cursor, the slot that receives the next value once all are filled.
pub type HistoryModel<T> = (Seq<T>, nat);

/// The state of a history that holds nothing.
pub open spec fn empty_history<T>() -> HistoryModel<T> {
    (Seq::empty(), 0)
}

/// The state of a history of capacity `n` after `t` has been recorded into `h`.
pub open spec fn record_step<T>(n: nat, h: HistoryModel<T>, t: T) -> HistoryModel<T> {
    (
        if h.0.len() < n {
            h.0.push(t)
        } else {
            h.0.update(h.1 as int, t)
        },
        (h.1 + 1) % (n as int) as nat,
    )
}

/// The state of a history of capacity `n` after a push of `t` that a timer
/// `allowed`, or denied.
pub open spec fn record_if<T>(n: nat, h: HistoryModel<T>, t: T, allowed: bool) -> HistoryModel<T> {
    if allowed {
        record_step(n, h, t)
    } else {
        h
    }
}

/// The state of a fresh history of capacity `n` after each push of `s`, a value
/// and whether the timer allowed it, in turn.
pub open spec fn history_of_timed<T>(n: nat, s: Seq<(T, bool)>) -> HistoryModel<T>
    decreases s.len(),
{
    if s.len() == 0 {
        empty_history()
    } else {
        record_if(n, history_of_timed(n, s.drop_last()), s.last().0, s.last().1)
    }
}

/// A timer that denies every push leaves a fresh history empty, with its cursor at
/// the first slot, however many pushes were made.
pub proof fn lemma_denied_pushes_keep_empty<T>(n: nat, s: Seq<(T, bool)>)
    requires
        forall|i: int| 0 <= i < s.len() ==> !(#[trigger] s[i]).1,
    ensures
        history_of_timed(n, s) == empty_history::<T>(),
    decreases s.len(),
{
    if s.len() > 0 {
        lemma_denied_pushes_keep_empty(n, s.drop_last());
        assert(!s[s.len() - 1].1);
    }
}

/// The state of a fresh history of capacity `n` after each value of `s` was
/// recorded in turn.
pub open spec fn history_of<T>(n: nat, s: Seq<T>) -> HistoryModel<T>
    decreases s.len(),
{
    if s.len() == 0 {
        empty_history()
    } else {
        record_step(n, history_of(n, s.drop_last()), s.last())
    }
}

/// After the values of `s` have been recorded in turn into a fresh history of
/// capacity `n`, the history holds `min(n, |s|)` values and its cursor is `|s|` mod
/// `n`. Up to `n` values are held exactly as they arrived; beyond that, the last
/// `n` values of `s` are held, the one that arrived at position `j` in slot
/// `j % n`, so that slot order is not arrival order.
pub proof fn lemma_history_of<T>(n: nat, s: Seq<T>)
    requires
        n > 0,
    ensures
        history_of(n, s).0.len() == if s.len() < n {
            s.len()
        } else {
            n
        },
        history_of(n, s).1 == (s.len() as int) % (n as int),
        s.len() <= n ==> history_of(n, s).0 == s,
        forall|j: int|
            #![trigger s[j]]
            0 <= j < s.len() && s.len() - n <= j ==> history_of(n, s).0[j % (n as int)] == s[j],
    decreases s.len(),
{
    let m = s.len() as int;
    let ni = n as int;
    if m == 0 {
        return;
    }
    let p = s.drop_last();
    lemma_history_of(n, p);
    let h = history_of(n, p);
    assert(s == p.push(s.last()));
    lemma_add_mod_noop_right(1, m - 1, ni);
    if m - 1 < ni {
        lemma_small_mod((m - 1) as nat, n);
        assert forall|j: int| 0 <= j < m implies #[trigger] (j % ni) == j by {
            lemma_small_mod(j as nat, n);
        }
    } else {
        assert forall|j: int|
            #![trigger s[j]]
            0 <= j < m && m - ni <= j implies history_of(n, s).0[j % ni] == s[j] by {
            if j < m - 1 {
                lemma_mod_equivalence(m - 1, j, ni);
                lemma_small_mod((m - 1 - j) as nat, n);
                assert(p[j] == s[j]);
            }
        }
    }
}

/// Struct to hold a list of items that only get updated on a [`DoOnInterval`], with
/// a circular cache that overwrites the oldest slot once there is no free space.
///
/// `T` is the type stored and `N` the capacity.
#[derive(Debug)]
pub struct MemoryCacher<T, const N: usize> {
    /// Holds all the data, in slot order.
    data: Vec<T>,
    /// Whether every slot holds a value.
    full: bool,
    /// The slot that receives the next value once the history is full; until then,
    /// the number of values held.
    index: usize,
    /// A timer, in case values are only to be recorded on an interval.
    timer: Option<DoOnInterval>,
}

impl<T, const N: usize> MemoryCacher<T, N> {
    /// The slots and the cursor.
    pub closed spec fn model(&self) -> HistoryModel<T> {
        (self.data@, self.index as nat)
    }

    /// The values held, in slot order.
    pub open spec fn slots(&self) -> Seq<T> {
        self.model().0
    }

    /// The slot that receives the next value.
    pub open spec fn cursor(&self) -> nat {
        self.model().1
    }

    /// Whether every slot holds a value.
    pub open spec fn is_full(&self) -> bool {
        self.slots().len() == N
    }

    /// The timer that pushes go through, if any.
    pub closed spec fn timer(&self) -> Option<DoOnInterval> {
        self.timer
    }

    /// Whether pushes go through a timer.
    pub open spec fn has_timer(&self) -> bool {
        self.timer() is Some
    }

    /// The internal consistency of the history.
    pub closed spec fn wf(&self) -> bool {
        &&& N > 0
        &&& self.data@.len() <= N
        &&& self.index < N
        &&& self.full == (self.data@.len() == N)
        &&& !self.full ==> self.index == self.data@.len()
    }

    /// What holds of every well-formed history.
    pub proof fn lemma_wf(&self)
        requires
            self.wf(),
        ensures
            N > 0,
            self.slots().len() <= N,
            self.cursor() < N,
            !self.is_full() ==> self.cursor() == self.slots().len(),
    {
    }

    /// Creates an empty history, with a timer if one is given.
    #[must_use]
    pub fn new(t: Option<DoOnInterval>) -> (r: Self)
        requires
            N > 0,
        ensures
            r.wf(),
            r.model() == empty_history::<T>(),
            r.timer() == t,
    {
        MemoryCacher { data: Vec::with_capacity(N), full: false, index: 0, timer: t }
    }

    /// Builds a history from its parts: the values in slot order, whether every
    /// slot holds a value, the cursor and the timer. Gives `None` where the parts do
    /// not describe a history of capacity `N`.
    pub fn from_parts(data: Vec<T>, full: bool, index: usize, timer: Option<DoOnInterval>) -> (r:
        Option<Self>)
        ensures
            r is Some <==> (N > 0 && data@.len() <= N && index < N && full == (data@.len() == N)
                && (!full ==> index == data@.len())),
            r matches Some(h) ==> h.wf() && h.model() == (data@, index as nat) && h.timer()
                == timer,
    {
        if N > 0 && data.len() <= N && index < N && full == (data.len() == N) && (full || index
            == data.len()) {
            Some(MemoryCacher { data, full, index, timer })
        } else {
            None
        }
    }

    /// Records `t` where `allowed` holds, and then tells the timer, if there is one,
    /// that a value was recorded. Does nothing where `allowed` does not hold.
    pub fn push_if(&mut self, t: T, allowed: bool)
        requires
            old(self).wf(),
        ensures
            final(self).wf(),
            final(self).has_timer() == old(self).has_timer(),
            final(self).model() == record_if(N as nat, old(self).model(), t, allowed),
            !allowed ==> *final(self) == *old(self),
    {
        if allowed {
            if self.full {
                self.data.set(self.index, t);
            } else {
                self.data.push(t);
                self.full = self.data.len() == N;
            }
            proof {
                if self.index + 1 < N {
                    lemma_small_mod((self.index + 1) as nat, N as nat);
                }
            }
            self.index = (self.index + 1) % N;
            if let Some(timer) = &mut self.timer {
                timer.update_timer();
            }
        }
    }

    /// Adds an element to the history, where there is no timer or the timer permits
    /// it. The history is then either unchanged or has recorded `t`; without a timer
    /// it has recorded `t`.
    pub fn push(&mut self, t: T)
        requires
            old(self).wf(),
        ensures
            final(self).wf(),
            final(self).has_timer() == old(self).has_timer(),
            final(self).model() == record_step(N as nat, old(self).model(), t) || *final(self)
                == *old(self),
            !old(self).has_timer() ==> final(self).model() == record_step(
                N as nat,
                old(self).model(),
                t,
            ),
    {
        let allowed = match &self.timer {
            Some(timer) => timer.can_do(),
            None => true,
        };
        self.push_if(t, allowed);
    }

    /// Returns whether or not the history is empty.
    #[must_use]
    pub fn is_empty(&self) -> (r: bool)
        requires
            self.wf(),
        ensures
            r == (self.slots().len() == 0),
            r == (!self.is_full() && self.cursor() == 0),
    {
        self.data.len() == 0
    }

    /// Gets all of the elements, in slot order.
    #[must_use]
    pub fn get_all(self) -> (r: Vec<T>)
        ensures
            r@ == self.slots(),
    {
        self.data
    }
}

impl<T: Copy, const N: usize> Default for MemoryCacher<T, N> {
    /// An empty history without a timer; consistent where `N` is positive.
    fn default() -> (r: Self)
        ensures
            r.model() == empty_history::<T>(),
            r.timer() is None,
            N > 0 ==> r.wf(),
    {
        MemoryCacher { data: Vec::with_capacity(N), full: false, index: 0, timer: None }
    }
}

impl<T: Copy, const N: usize> MemoryCacher<T, N> {
    /// Gets a copy of all of the elements, in slot order, leaving the history as
    /// it is.
    #[must_use]
    pub fn get_all_copy(&self) -> (r: Vec<T>)
        ensures
            r@ == self.slots(),
    {
        let mut r: Vec<T> = Vec::with_capacity(self.data.len());
        let mut i: usize = 0;
        while i < self.data.len()
            invariant
                i <= self.data@.len(),
                r@ == self.data@.take(i as int),
            decreases self.data@.len() - i,
        {
            r.push(self.data[i]);
            i = i + 1;
            assert(r@ =~= self.data@.take(i as int));
        }
        assert(self.data@.take(i as int) =~= self.data@);
        r
    }
}

impl<T: Copy, const N: usize> IntoIterator for MemoryCacher<T, N> {
    type Item = T;

    type IntoIter = std::vec::IntoIter<T>;

    /// Iterates over the elements in slot order, consuming the history.
    fn into_iter(self) -> (r: Self::IntoIter)
        ensures
            r.remaining() == self.slots(),
    {
        let v = self.get_all();
        let ghost gv = v;
        let r = v.into_iter();
        proof {
            vstd::std_specs::vec::axiom_spec_into_iter(gv);
        }
        r
    }
}

} // verus!
