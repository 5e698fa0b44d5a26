//! Short-term (working) memory: a bounded record of the most recent
//! experiences, with a clock of time steps.

use vstd::prelude::*;

verus! {

/// The memory that remembering `item` into a memory holding `items` with room
/// for `capacity` entries leaves: `items` followed by `item`, of which only the
/// last `capacity` entries are kept.
pub open spec fn spec_remember<T>(items: Seq<T>, capacity: nat, item: T) -> Seq<T> {
    let all = items.push(item);
    if all.len() > capacity {
        all.skip(all.len() - capacity)
    } else {
        all
    }
}

/// The last `n` entries of `items` (all of them when there are fewer), oldest first.
pub open spec fn spec_recent<T>(items: Seq<T>, n: nat) -> Seq<T> {
    if items.len() > n {
        items.skip(items.len() - n)
    } else {
        items
    }
}

/// A bounded memory of recent entries, oldest first, together with the
/// current time step. When full, remembering a new entry forgets the oldest.
#[derive(Debug)]
pub struct ShortTermMemory<T> {
    capacity: usize,
    items: Vec<T>,
    timestep: usize,
}

impl<T> View for ShortTermMemory<T> {
    type V = Seq<T>;

    /// The remembered entries, oldest first.
    closed spec fn view(&self) -> Seq<T> {
        self.items@
    }
}

impl<T> ShortTermMemory<T> {
    #[verifier::type_invariant]
    closed spec fn well_formed(self) -> bool {
        self.items@.len() <= self.capacity
    }

    /// How many entries the memory holds at most.
    pub closed spec fn capacity(&self) -> nat {
        self.capacity as nat
    }

    /// The current time step.
    pub closed spec fn timestep(&self) -> nat {
        self.timestep as nat
    }

    /// An empty memory with room for `capacity` entries, at time step 0.
    pub fn new(capacity: usize) -> (m: Self)
        ensures
            m@ == Seq::<T>::empty(),
            m.capacity() == capacity,
            m.timestep() == 0,
    {
        ShortTermMemory { capacity, items: Vec::with_capacity(capacity), timestep: 0 }
    }

    /// Adds an entry as the newest; when the memory is full, the oldest entry is
    /// forgotten first. The memory never holds more than its capacity.
    pub fn remember(&mut self, item: T)
        requires
            old(self).capacity() > 0,
        ensures
            final(self)@ == spec_remember(old(self)@, old(self).capacity(), item),
            final(self)@.len() > 0,
            final(self)@.last() == item,
            old(self)@.len() < old(self).capacity() ==> final(self)@ == old(self)@.push(item),
            old(self)@.len() >= old(self).capacity() ==> final(self)@ == old(self)@.skip(1).push(
                item,
            ),
            final(self)@.len() <= final(self).capacity(),
            final(self).capacity() == old(self).capacity(),
            final(self).timestep() == old(self).timestep(),
    {
        proof {
            use_type_invariant(&*self);
        }
        let ghost before = self.items@;
        let mut items: Vec<T> = Vec::new();
        std::mem::swap(&mut items, &mut self.items);
        if items.len() >= self.capacity {
            items.remove(0);
        }
        items.push(item);
        proof {
            let all = before.push(item);
            if all.len() > self.capacity {
                assert(items@ =~= all.skip(all.len() - self.capacity));
            } else {
                assert(items@ =~= all);
            }
        }
        self.items = items;
    }

    /// The last `n` entries (all of them when there are fewer), oldest first.
    pub fn recent(&self, n: usize) -> (r: Vec<&T>)
        ensures
            r@.len() == spec_recent(self@, n as nat).len(),
            forall|i: int| 0 <= i < r@.len() ==> *r@[i] == spec_recent(self@, n as nat)[i],
            r@.len() == if self@.len() > n {
                n as nat
            } else {
                self@.len()
            },
            forall|i: int| 0 <= i < r@.len() ==> *r@[i] == self@[self@.len() - r@.len() + i],
    {
        let len = self.items.len();
        let start = if len > n {
            len - n
        } else {
            0
        };
        let ghost expected = spec_recent(self@, n as nat);
        assert(expected =~= self@.skip(start as int));
        let mut out: Vec<&T> = Vec::new();
        let mut i: usize = start;
        while i < len
            invariant
                len == self@.len(),
                start <= i <= len,
                expected == self@.skip(start as int),
                out@.len() == i - start,
                forall|k: int| 0 <= k < out@.len() ==> *out@[k] == expected[k],
                forall|k: int| 0 <= k < out@.len() ==> *out@[k] == self@[start + k],
            decreases len - i,
        {
            out.push(&self.items[i]);
            i = i + 1;
        }
        out
    }

    /// All remembered entries, oldest first.
    pub fn all(&self) -> (r: &Vec<T>)
        ensures
            r@ == self@,
            self@.len() <= self.capacity(),
    {
        proof {
            use_type_invariant(self);
        }
        &self.items
    }

    /// Forgets every entry; the capacity and the time step stay.
    pub fn clear(&mut self)
        ensures
            final(self)@ == Seq::<T>::empty(),
            final(self).capacity() == old(self).capacity(),
            final(self).timestep() == old(self).timestep(),
    {
        self.items = Vec::new();
    }

    /// Advances the time step by one; the entries stay.
    pub fn tick(&mut self)
        requires
            old(self).timestep() < usize::MAX,
        ensures
            final(self).timestep() == old(self).timestep() + 1,
            final(self)@ == old(self)@,
            final(self).capacity() == old(self).capacity(),
    {
        proof {
            use_type_invariant(&*self);
        }
        self.timestep = self.timestep + 1;
    }

    /// How many entries the memory holds at most.
    pub fn get_capacity(&self) -> (c: usize)
        ensures
            c == self.capacity(),
            self@.len() <= self.capacity(),
    {
        proof {
            use_type_invariant(self);
        }
        self.capacity
    }

    /// The current time step.
    pub fn get_timestep(&self) -> (t: usize)
        ensures
            t == self.timestep(),
    {
        self.timestep
    }
}

impl<T> Default for ShortTermMemory<T> {
    /// An empty memory with room for 100 entries.
    fn default() -> (m: Self)
        ensures
            m@ == Seq::<T>::empty(),
            m.capacity() == 100,
            m.timestep() == 0,
    {
        Self::new(100)
    }
}

/// The entries of a memory with room for `capacity` entries that held `items`
/// after remembering each entry of `xs` in turn.
pub open spec fn spec_remember_all<T>(items: Seq<T>, capacity: nat, xs: Seq<T>) -> Seq<T>
    decreases xs.len(),
{
    if xs.len() == 0 {
        items
    } else {
        spec_remember(spec_remember_all(items, capacity, xs.drop_last()), capacity, xs.last())
    }
}

/// Remembering one more entry into the last `capacity` entries of a history
/// gives the last `capacity` entries of the history extended by that entry.
pub proof fn lemma_remember_extends_recent<T>(history: Seq<T>, capacity: nat, item: T)
    requires
        capacity > 0,
    ensures
        spec_remember(spec_recent(history, capacity), capacity, item) == spec_recent(
            history.push(item),
            capacity,
        ),
{
    let kept = spec_recent(history, capacity);
    let lhs = spec_remember(kept, capacity, item);
    let rhs = spec_recent(history.push(item), capacity);
    assert(lhs.len() == rhs.len());
    assert forall|i: int| 0 <= i < lhs.len() implies lhs[i] == rhs[i] by {}
    assert(lhs =~= rhs);
}

/// A short-term memory holds exactly the last `capacity` entries of everything
/// it was ever given (all of them while there are fewer), oldest first:
/// remembering the entries of `xs` one by one into a memory that holds `items`
/// leaves the last `capacity` entries of `items` followed by `xs`.
pub proof fn lemma_memory_keeps_most_recent<T>(items: Seq<T>, capacity: nat, xs: Seq<T>)
    requires
        capacity > 0,
        items.len() <= capacity,
    ensures
        spec_remember_all(items, capacity, xs) == spec_recent(items + xs, capacity),
    decreases xs.len(),
{
    if xs.len() == 0 {
        assert(items + xs =~= items);
    } else {
        lemma_memory_keeps_most_recent(items, capacity, xs.drop_last());
        lemma_remember_extends_recent(items + xs.drop_last(), capacity, xs.last());
        assert((items + xs.drop_last()).push(xs.last()) =~= items + xs);
    }
}

/// The key under which long-term memory stores the value of taking `action`
/// in `state`: the state, a colon, then the action.
pub open spec fn spec_state_action_key(state: Seq<char>, action: Seq<char>) -> Seq<char> {
    state + seq![':'] + action
}

/// Builds the key under which long-term memory stores the value of taking
/// `action` in `state`.
pub fn state_action_key(state: &str, action: &str) -> (key: String)
    ensures
        key@ == spec_state_action_key(state@, action@),
{
    let key = String::from_str(state);
    let key = key.concat(":");
    proof {
        reveal_strlit(":");
    }
    let key = key.concat(action);
    key
}

/// Distinct state-action pairs never share a key as long as action names hold
/// no colon (states may hold colons): a key determines its state and action.
pub proof fn lemma_state_action_key_injective(
    state1: Seq<char>,
    action1: Seq<char>,
    state2: Seq<char>,
    action2: Seq<char>,
)
    requires
        !action1.contains(':'),
        !action2.contains(':'),
        spec_state_action_key(state1, action1) == spec_state_action_key(state2, action2),
    ensures
        state1 == state2,
        action1 == action2,
{
    let k = spec_state_action_key(state1, action1);
    let k2 = spec_state_action_key(state2, action2);
    assert(k.len() == state1.len() + 1 + action1.len());
    assert(k2.len() == state2.len() + 1 + action2.len());
    if action1.len() < action2.len() {
        let idx = state1.len() as int;
        assert(k[idx] == ':');
        assert(k2[idx] == action2[idx - state2.len() - 1]);
        assert(action2.contains(action2[idx - state2.len() - 1]));
    } else if action2.len() < action1.len() {
        let idx = state2.len() as int;
        assert(k2[idx] == ':');
        assert(k[idx] == action1[idx - state1.len() - 1]);
        assert(action1.contains(action1[idx - state1.len() - 1]));
    } else {
        assert forall|i: int| 0 <= i < state1.len() implies state1[i] == state2[i] by {
            assert(k[i] == k2[i]);
        }
        assert forall|i: int| 0 <= i < action1.len() implies action1[i] == action2[i] by {
            assert(k[state1.len() + 1 + i] == k2[state2.len() + 1 + i]);
        }
        assert(state1 =~= state2);
        assert(action1 =~= action2);
    }
}

/// Remembering into a memory with room to spare appends the entry; remembering
/// into a full memory forgets the oldest entry and appends the new one. Either
/// way the newest entry is the one just remembered and the size grows by one up
/// to the capacity.
pub proof fn lemma_remember_appends_newest<T>(items: Seq<T>, capacity: nat, item: T)
    requires
        capacity > 0,
        items.len() <= capacity,
    ensures
        spec_remember(items, capacity, item).len() == if items.len() < capacity {
            items.len() + 1
        } else {
            capacity
        },
        spec_remember(items, capacity, item).last() == item,
        items.len() < capacity ==> spec_remember(items, capacity, item) == items.push(item),
        items.len() == capacity ==> spec_remember(items, capacity, item) == items.skip(1).push(
            item,
        ),
{
    if items.len() == capacity {
        assert(items.push(item).skip(1) =~= items.skip(1).push(item));
    }
}

/// The recent entries are a suffix of the memory: as many as asked for (all
/// of them when there are fewer), ending with the newest.
pub proof fn lemma_recent_is_suffix<T>(items: Seq<T>, n: nat)
    ensures
        spec_recent(items, n).len() == if items.len() > n {
            n
        } else {
            items.len()
        },
        forall|i: int|
            0 <= i < spec_recent(items, n).len() ==> #[trigger] spec_recent(items, n)[i]
                == items[items.len() - spec_recent(items, n).len() + i],
        items.len() > 0 && n > 0 ==> spec_recent(items, n).last() == items.last(),
{
}

/// Once more entries have been remembered than a memory holds, it holds the
/// last `capacity` of them, oldest first; until then it holds all of them.
pub proof fn lemma_memory_holds_last_capacity<T>(items: Seq<T>, capacity: nat, xs: Seq<T>)
    requires
        capacity > 0,
        items.len() <= capacity,
    ensures
        (items + xs).len() > capacity ==> spec_remember_all(items, capacity, xs) == (items
            + xs).skip((items + xs).len() - capacity),
        (items + xs).len() <= capacity ==> spec_remember_all(items, capacity, xs) == items + xs,
        xs.len() > 0 ==> spec_remember_all(items, capacity, xs).last() == xs.last(),
{
    lemma_memory_keeps_most_recent(items, capacity, xs);
    let h = items + xs;
    if xs.len() > 0 {
        assert(h.last() == xs.last());
    }
}

} // verus!
