//! Experience replay: transitions and the bounded buffer that keeps the most
//! recent of them.

use vstd::prelude::*;
use std::collections::VecDeque;
use crate::rng::sample_indices;

verus! {

/// One step of experience: the state in which an action was taken, the action,
/// the reward it earned, the state that followed, and whether the episode
/// ended there.
///
/// States are feature vectors whose entries are 0 or 1. The reward is held in
/// tenths of a unit, so that the rewards of the game are whole numbers.
#[derive(Debug, PartialEq, Eq)]
pub struct Transition {
    pub state: Vec<u8>,
    pub action: usize,
    pub reward_tenths: i32,
    pub next_state: Vec<u8>,
    pub terminal: bool,
}

/// What a transition holds, as mathematical values.
pub ghost struct TransitionView {
    pub state: Seq<u8>,
    pub action: usize,
    pub reward_tenths: i32,
    pub next_state: Seq<u8>,
    pub terminal: bool,
}

impl View for Transition {
    type V = TransitionView;

    open spec fn view(&self) -> TransitionView {
        TransitionView {
            state: self.state@,
            action: self.action,
            reward_tenths: self.reward_tenths,
            next_state: self.next_state@,
            terminal: self.terminal,
        }
    }
}

impl Clone for Transition {
    /// A copy that holds the same values.
    fn clone(&self) -> (copy: Self)
        ensures
            copy@ == self@,
    {
        Transition {
            state: self.state.clone(),
            action: self.action,
            reward_tenths: self.reward_tenths,
            next_state: self.next_state.clone(),
            terminal: self.terminal,
        }
    }
}

/// The views of a sequence of transitions.
pub open spec fn views(items: Seq<Transition>) -> Seq<TransitionView> {
    items.map_values(|t: Transition| t@)
}

/// The last `n` elements of `s`, or all of `s` when it has no more than `n`.
pub open spec fn keep_last<T>(s: Seq<T>, n: nat) -> Seq<T> {
    if s.len() <= n {
        s
    } else {
        s.subrange(s.len() - n, s.len() as int)
    }
}

/// What a buffer of capacity `n` that holds `start` holds after each of
/// `items` has been pushed in turn.
pub open spec fn push_all<T>(start: Seq<T>, items: Seq<T>, n: nat) -> Seq<T>
    decreases items.len(),
{
    if items.len() == 0 {
        start
    } else {
        keep_last(push_all(start, items.drop_last(), n).push(items.last()), n)
    }
}

/// `batch` is drawn from `pool` at the positions `picks`, no position twice.
pub open spec fn drawn_from<T>(batch: Seq<T>, pool: Seq<T>, picks: Seq<usize>) -> bool {
    &&& picks.len() == batch.len()
    &&& forall|i: int| 0 <= i < picks.len() ==> (#[trigger] picks[i]) < pool.len()
    &&& forall|i: int| 0 <= i < picks.len() ==> (#[trigger] batch[i]) == pool[picks[i] as int]
    &&& forall|i: int, j: int| 0 <= i < j < picks.len() ==> picks[i] != picks[j]
}

/// Pushing `next` after `items` is pushing `items` and then `next`.
pub proof fn lemma_push_one<T>(start: Seq<T>, items: Seq<T>, next: T, n: nat)
    ensures
        push_all(start, items.push(next), n) == keep_last(push_all(start, items, n).push(next), n),
{
    assert(items.push(next).drop_last() =~= items);
}

/// Pushing one element after another into a buffer that is within its
/// capacity leaves the most recent `n` of everything that was ever in it, in
/// the order of arrival.
pub proof fn lemma_push_all<T>(start: Seq<T>, items: Seq<T>, n: nat)
    requires
        start.len() <= n,
    ensures
        push_all(start, items, n) == keep_last(start + items, n),
    decreases items.len(),
{
    if items.len() == 0 {
        assert(start + items =~= start);
    } else {
        lemma_push_all(start, items.drop_last(), n);
        let before = start + items.drop_last();
        assert(before.push(items.last()) =~= start + items);
        assert(keep_last(keep_last(before, n).push(items.last()), n) =~= keep_last(
            before.push(items.last()),
            n,
        ));
    }
}

/// First in, first out: after `items` have been pushed into an empty buffer
/// of capacity `n`, the buffer holds exactly the last `n` of them, oldest
/// first.
pub proof fn lemma_fifo_eviction<T>(items: Seq<T>, n: nat)
    ensures
        push_all(Seq::<T>::empty(), items, n) == keep_last(items, n),
        push_all(Seq::<T>::empty(), items, n).len() == if items.len() <= n {
            items.len()
        } else {
            n
        },
{
    lemma_push_all(Seq::<T>::empty(), items, n);
    assert(Seq::<T>::empty() + items =~= items);
}

/// A bounded store of transitions in order of arrival. Once it holds as many
/// as its capacity, each push evicts the oldest.
pub struct ExperienceBuffer {
    items: VecDeque<Transition>,
    capacity: usize,
}

impl View for ExperienceBuffer {
    type V = Seq<TransitionView>;

    /// The transitions held, oldest first.
    closed spec fn view(&self) -> Seq<TransitionView> {
        views(self.items@)
    }
}

impl ExperienceBuffer {
    /// The buffer's invariant: it holds no more than its capacity.
    pub closed spec fn wf(&self) -> bool {
        self.items@.len() <= self.capacity
    }

    /// The most transitions the buffer will hold.
    pub closed spec fn limit(&self) -> usize {
        self.capacity
    }

    /// An empty buffer that will hold up to `capacity` transitions.
    pub fn new(capacity: usize) -> (buffer: Self)
        ensures
            buffer.wf(),
            buffer@ == Seq::<TransitionView>::empty(),
            buffer.limit() == capacity,
    {
        ExperienceBuffer { items: VecDeque::new(), capacity }
    }

    /// The most transitions the buffer will hold.
    pub fn capacity(&self) -> (n: usize)
        ensures
            n == self.limit(),
    {
        self.capacity
    }

    /// The number of transitions held, which never exceeds the capacity.
    pub fn len(&self) -> (n: usize)
        ensures
            n == self@.len(),
            self.wf() ==> n <= self.limit(),
    {
        self.items.len()
    }

    /// Whether the buffer holds nothing.
    pub fn is_empty(&self) -> (r: bool)
        ensures
            r == (self@.len() == 0),
    {
        self.items.len() == 0
    }

    /// The transition at position `index`, counted from the oldest.
    pub fn get(&self, index: usize) -> (t: &Transition)
        requires
            index < self@.len(),
        ensures
            t@ == self@[index as int],
    {
        &self.items[index]
    }

    /// Appends a transition, then evicts from the front whatever exceeds the
    /// capacity.
    pub fn push(&mut self, transition: Transition)
        requires
            old(self).wf(),
        ensures
            final(self).wf(),
            final(self)@ == keep_last(old(self)@.push(transition@), old(self).limit() as nat),
            final(self).limit() == old(self).limit(),
    {
        // Room is made before the transition goes in, which leaves the same
        // contents as appending first and evicting afterwards.
        if self.capacity == 0 {
            return ;
        }
        if self.items.len() == self.capacity {
            let _ = self.items.pop_front();
        }
        self.items.push_back(transition);
        assert(self@ =~= keep_last(old(self)@.push(transition@), old(self).limit() as nat));
    }

    /// Copies of the transitions at the positions `picks`, in that order.
    pub fn select(&self, picks: &Vec<usize>) -> (batch: Vec<Transition>)
        requires
            forall|i: int| 0 <= i < picks@.len() ==> (#[trigger] picks@[i]) < self@.len(),
        ensures
            batch@.len() == picks@.len(),
            forall|i: int| 0 <= i < picks@.len() ==> (#[trigger] batch@[i])@ == self@[picks@[i] as int],
    {
        let mut batch: Vec<Transition> = Vec::new();
        let mut i: usize = 0;
        while i < picks.len()
            invariant
                i <= picks@.len(),
                batch@.len() == i,
                forall|j: int| 0 <= j < picks@.len() ==> (#[trigger] picks@[j]) < self@.len(),
                forall|j: int| 0 <= j < i ==> (#[trigger] batch@[j])@ == self@[picks@[j] as int],
            decreases picks@.len() - i,
        {
            let pick: usize = picks[i];
            batch.push(self.items[pick].clone());
            i += 1;
        }
        batch
    }

    /// Copies of `n` transitions drawn at random, none of them twice.
    pub fn sample(&self, n: usize) -> (batch: Vec<Transition>)
        requires
            n <= self@.len(),
        ensures
            batch@.len() == n,
            exists|picks: Seq<usize>| drawn_from(views(batch@), self@, picks),
    {
        let picks: Vec<usize> = sample_indices(self.items.len(), n);
        let batch: Vec<Transition> = self.select(&picks);
        assert(drawn_from(views(batch@), self@, picks@));
        batch
    }

    /// A batch of `n` transitions drawn at random without replacement, once
    /// the buffer holds at least `n`; nothing before that.
    pub fn sample_batch(&self, n: usize) -> (batch: Option<Vec<Transition>>)
        ensures
            batch is Some <==> n <= self@.len(),
            batch matches Some(b) ==> b@.len() == n && exists|picks: Seq<usize>|
                drawn_from(views(b@), self@, picks),
    {
        if self.items.len() >= n {
            Some(self.sample(n))
        } else {
            None
        }
    }
}

} // verus!
