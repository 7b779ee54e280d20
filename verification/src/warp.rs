//! Camera warp navigation: a list of named destinations, the one last chosen,
//! and whether a warp transition is running.
//!
//! The payload of a destination (`T`) and the record of a running transition
//! (`A`) are opaque here; the caller supplies how a transition starts from a
//! destination.
use vstd::prelude::*;

verus! {

/// Warp animation state.
pub enum WarpState<A> {
    Idle,
    Warping(A),
}

/// Manages camera warping to a list of named destinations.
pub struct WarpSystem<T, A> {
    pub state: WarpState<A>,
    pub warp_targets: Vec<(String, T)>,
    pub current_target: usize,
}

/// Destination after `current` when stepping forward through `len` targets.
pub open spec fn next_index(current: int, len: int) -> int {
    (current + 1) % len
}

/// Destination before `current` when stepping back through `len` targets.
pub open spec fn prev_index(current: int, len: int) -> int {
    if current == 0 {
        len - 1
    } else {
        current - 1
    }
}

/// `k` forward steps from `current`.
pub open spec fn next_steps(current: int, len: int, k: nat) -> int
    decreases k,
{
    if k == 0 {
        current
    } else {
        next_index(next_steps(current, len, (k - 1) as nat), len)
    }
}

impl<T, A> WarpSystem<T, A> {
    /// Whether a call of `warp_to(idx, start)` on `old` led to `new`: a valid
    /// index starts a transition built by `start` from that destination and
    /// makes it current; any other index changes nothing.
    pub open spec fn warped_to<F: Fn(&T) -> A>(old: Self, new: Self, idx: int, start: F) -> bool {
        &&& new.warp_targets@ == old.warp_targets@
        &&& if 0 <= idx < old.warp_targets@.len() {
            &&& new.current_target == idx
            &&& new.state matches WarpState::Warping(a) && start.ensures((&old.warp_targets@[idx].1,), a)
        } else {
            &&& new.current_target == old.current_target
            &&& new.state == old.state
        }
    }

    /// An idle system with no destinations.
    pub fn new() -> (s: Self)
        ensures
            s.state is Idle,
            s.warp_targets@.len() == 0,
            s.current_target == 0,
    {
        WarpSystem { state: WarpState::Idle, warp_targets: Vec::new(), current_target: 0 }
    }

    /// Appends a named destination.
    pub fn add_target(&mut self, name: &str, target: T)
        ensures
            final(self).warp_targets@.len() == old(self).warp_targets@.len() + 1,
            forall|i: int|
                0 <= i < old(self).warp_targets@.len() ==> #[trigger] final(self).warp_targets@[i] == old(
                    self,
                ).warp_targets@[i],
            final(self).warp_targets@.last().0@ == name@,
            final(self).warp_targets@.last().1 == target,
            final(self).state == old(self).state,
            final(self).current_target == old(self).current_target,
    {
        self.warp_targets.push((name.to_owned(), target));
    }

    /// Starts a transition to destination `target_idx`, built by `start` from
    /// its payload, and makes it current. An index past the end is ignored.
    pub fn warp_to<F: Fn(&T) -> A>(&mut self, target_idx: usize, start: F)
        requires
            forall|t: &T| #[trigger] start.requires((t,)),
        ensures
            Self::warped_to(*old(self), *final(self), target_idx as int, start),
    {
        if target_idx >= self.warp_targets.len() {
            return ;
        }
        let animation = start(&self.warp_targets[target_idx].1);
        self.state = WarpState::Warping(animation);
        self.current_target = target_idx;
    }

    /// Warps to the destination after the current one, wrapping around at
    /// the end. With no destinations nothing happens.
    pub fn warp_next<F: Fn(&T) -> A>(&mut self, start: F)
        requires
            forall|t: &T| #[trigger] start.requires((t,)),
        ensures
            old(self).warp_targets@.len() == 0 ==> *final(self) == *old(self),
            old(self).warp_targets@.len() > 0 ==> Self::warped_to(
                *old(self),
                *final(self),
                next_index(old(self).current_target as int, old(self).warp_targets@.len() as int),
                start,
            ),
    {
        let len = self.warp_targets.len();
        if len == 0 {
            return ;
        }
        proof {
            vstd::arithmetic::div_mod::lemma_add_mod_noop(self.current_target as int, 1, len as int);
            vstd::arithmetic::div_mod::lemma_mod_twice(self.current_target as int, len as int);
            if len > 1 {
                vstd::arithmetic::div_mod::lemma_small_mod(1, len as nat);
            }
        }
        let next = (self.current_target % len + 1) % len;
        self.warp_to(next, start);
    }

    /// Warps to the destination before the current one, wrapping around at
    /// the start. With no destinations nothing happens.
    pub fn warp_prev<F: Fn(&T) -> A>(&mut self, start: F)
        requires
            forall|t: &T| #[trigger] start.requires((t,)),
        ensures
            old(self).warp_targets@.len() == 0 ==> *final(self) == *old(self),
            old(self).warp_targets@.len() > 0 ==> Self::warped_to(
                *old(self),
                *final(self),
                prev_index(old(self).current_target as int, old(self).warp_targets@.len() as int),
                start,
            ),
    {
        let len = self.warp_targets.len();
        if len == 0 {
            return ;
        }
        let prev = if self.current_target == 0 {
            len - 1
        } else {
            self.current_target - 1
        };
        self.warp_to(prev, start);
    }

    /// Whether a transition is running.
    pub fn is_warping(&self) -> (r: bool)
        ensures
            r == (self.state is Warping),
    {
        match self.state {
            WarpState::Idle => false,
            WarpState::Warping(_) => true,
        }
    }

    /// Name of the current destination, if the index names one.
    pub fn current_target_name(&self) -> (r: Option<&str>)
        ensures
            r is Some <==> self.current_target < self.warp_targets@.len(),
            r is Some ==> r.unwrap()@ == self.warp_targets@[self.current_target as int].0@,
    {
        if self.current_target < self.warp_targets.len() {
            Some(self.warp_targets[self.current_target].0.as_str())
        } else {
            None
        }
    }
}

/// Stepping back undoes stepping forward, and the other way round, for any
/// valid current destination.
pub proof fn lemma_prev_undoes_next(current: int, len: int)
    requires
        0 <= current < len,
    ensures
        prev_index(next_index(current, len), len) == current,
        next_index(prev_index(current, len), len) == current,
        0 <= next_index(current, len) < len,
        0 <= prev_index(current, len) < len,
{
    if current + 1 < len {
        vstd::arithmetic::div_mod::lemma_small_mod((current + 1) as nat, len as nat);
    } else {
        vstd::arithmetic::div_mod::lemma_mod_self_0(len);
    }
    if current == 0 {
        vstd::arithmetic::div_mod::lemma_mod_self_0(len);
    } else {
        vstd::arithmetic::div_mod::lemma_small_mod(current as nat, len as nat);
    }
}

/// Stepping forward `k` times from `current` lands on `(current + k) % len`:
/// the destinations are visited in order, each one once per `len` steps.
pub proof fn lemma_next_steps(current: int, len: int, k: nat)
    requires
        0 <= current < len,
    ensures
        next_steps(current, len, k) == (current + k) % len,
    decreases k,
{
    if k == 0 {
        vstd::arithmetic::div_mod::lemma_small_mod(current as nat, len as nat);
    } else {
        lemma_next_steps(current, len, (k - 1) as nat);
        vstd::arithmetic::div_mod::lemma_add_mod_noop(current + k - 1, 1, len);
        vstd::arithmetic::div_mod::lemma_mod_twice(current + k - 1, len);
        if len > 1 {
            vstd::arithmetic::div_mod::lemma_small_mod(1, len as nat);
        }
        vstd::arithmetic::div_mod::lemma_add_mod_noop((current + k - 1) % len, 1, len);
    }
}

/// After as many forward steps as there are destinations the current one is
/// reached again.
pub proof fn lemma_next_cycle_returns(current: int, len: int)
    requires
        0 <= current < len,
    ensures
        next_steps(current, len, len as nat) == current,
{
    lemma_next_steps(current, len, len as nat);
    vstd::arithmetic::div_mod::lemma_mod_add_multiples_vanish(current, len);
    vstd::arithmetic::div_mod::lemma_small_mod(current as nat, len as nat);
}

} // verus!
