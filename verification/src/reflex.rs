//! Reflex arcs: the actions the creature can take, the stimulus each innate
//! reflex produces, and the arbitration that lets the highest-priority
//! triggered reflex win.

use vstd::prelude::*;

verus! {

/// A motor action.
#[derive(Debug, Clone, Copy, PartialEq, Eq, Structural)]
pub enum Action {
    MoveTowards,
    Flee,
    Explore,
    Wait,
    Rest,
    Eat,
}

/// The kind of an innate reflex.
#[derive(Debug, Clone, Copy, PartialEq, Eq, Structural)]
pub enum ReflexType {
    /// Move towards food.
    Approach,
    /// Run away from danger.
    Flee,
    /// Wander around.
    Explore,
    /// Look for food.
    SeekFood,
    /// Rest when safe.
    Rest,
}

/// The name under which the creature records a reflex of the given kind.
pub open spec fn spec_reflex_name(reflex: ReflexType) -> Seq<char> {
    match reflex {
        ReflexType::Approach => "Approach"@,
        ReflexType::Flee => "Flee"@,
        ReflexType::Explore => "Explore"@,
        ReflexType::SeekFood => "SeekFood"@,
        ReflexType::Rest => "Rest"@,
    }
}

impl ReflexType {
    /// The name under which the creature records this reflex in its memory.
    pub fn name(&self) -> (n: String)
        ensures
            n@ == spec_reflex_name(*self),
    {
        match self {
            ReflexType::Approach => "Approach".to_string(),
            ReflexType::Flee => "Flee".to_string(),
            ReflexType::Explore => "Explore".to_string(),
            ReflexType::SeekFood => "SeekFood".to_string(),
            ReflexType::Rest => "Rest".to_string(),
        }
    }
}

/// No reflex name holds a colon, so the key of a perception and a reflex name
/// in long-term memory determines both.
pub proof fn lemma_reflex_name_has_no_colon(reflex: ReflexType)
    ensures
        !spec_reflex_name(reflex).contains(':'),
{
    reveal_strlit("Approach");
    reveal_strlit("Flee");
    reveal_strlit("Explore");
    reveal_strlit("SeekFood");
    reveal_strlit("Rest");
    let n = spec_reflex_name(reflex);
    assert forall|i: int| 0 <= i < n.len() implies n[i] != ':' by {}
}

/// A stimulus that one of the creature's own actions feeds back to it, with
/// its strength in whole units.
#[derive(Debug, Clone, Copy, PartialEq, Eq, Structural)]
pub enum StimulusEffect {
    /// Raises energy by the given amount.
    Food(u32),
    /// Lowers safety by the given amount.
    Threat(u32),
    /// Raises safety by the given amount.
    Comfort(u32),
}

/// The stimulus that a reflex of the given kind produces.
pub open spec fn spec_reflex_stimulus(reflex: ReflexType) -> Option<StimulusEffect> {
    match reflex {
        ReflexType::Flee => Some(StimulusEffect::Comfort(2)),
        ReflexType::SeekFood | ReflexType::Approach => Some(StimulusEffect::Food(1)),
        ReflexType::Rest => Some(StimulusEffect::Comfort(3)),
        ReflexType::Explore => Some(StimulusEffect::Threat(1)),
    }
}

/// Converts a reflex into the stimulus its action produces: fleeing brings a
/// little comfort, seeking or approaching food brings food, resting brings
/// comfort, and exploring may meet a threat.
pub fn reflex_to_stimulus(reflex: &ReflexType) -> (s: Option<StimulusEffect>)
    ensures
        s == spec_reflex_stimulus(*reflex),
{
    match reflex {
        ReflexType::Flee => Some(StimulusEffect::Comfort(2)),
        ReflexType::SeekFood | ReflexType::Approach => Some(StimulusEffect::Food(1)),
        ReflexType::Rest => Some(StimulusEffect::Comfort(3)),
        ReflexType::Explore => Some(StimulusEffect::Threat(1)),
    }
}

/// What executing the action of a reflex yields.
#[derive(Debug)]
pub struct ActionResult {
    /// The stimulus the action produces.
    pub stimulus: Option<StimulusEffect>,
    /// The energy the action costs, in whole units; negative when it restores energy.
    pub energy_cost: i32,
    /// A description of the action.
    pub description: String,
}

/// The stimulus of the action that executes a reflex of the given kind.
pub open spec fn spec_action_stimulus(reflex: ReflexType) -> Option<StimulusEffect> {
    spec_reflex_stimulus(reflex)
}

/// The energy cost of the action that executes a reflex of the given kind.
pub open spec fn spec_action_energy_cost(reflex: ReflexType) -> int {
    match reflex {
        ReflexType::Flee => 3,
        ReflexType::SeekFood | ReflexType::Approach => 2,
        ReflexType::Rest => -1,
        ReflexType::Explore => 2,
    }
}

/// The description of the action that executes a reflex of the given kind.
pub open spec fn spec_action_description(reflex: ReflexType) -> Seq<char> {
    match reflex {
        ReflexType::Flee => "逃跑：快速离开危险区域"@,
        ReflexType::SeekFood | ReflexType::Approach => "移动：向目标位置移动"@,
        ReflexType::Rest => "休息：放松恢复"@,
        ReflexType::Explore => "探索：搜索周围环境"@,
    }
}

/// Carries out the actions of reflexes.
pub struct ActionExecutor;

impl ActionExecutor {
    /// Executes the action that a reflex of the given kind calls for.
    pub fn execute(reflex_type: &ReflexType) -> (r: ActionResult)
        ensures
            r.stimulus == spec_action_stimulus(*reflex_type),
            r.energy_cost == spec_action_energy_cost(*reflex_type),
            r.description@ == spec_action_description(*reflex_type),
    {
        match reflex_type {
            ReflexType::Flee => ActionResult {
                stimulus: Some(StimulusEffect::Comfort(2)),
                energy_cost: 3,
                description: "逃跑：快速离开危险区域".to_string(),
            },
            ReflexType::SeekFood | ReflexType::Approach => ActionResult {
                stimulus: Some(StimulusEffect::Food(1)),
                energy_cost: 2,
                description: "移动：向目标位置移动".to_string(),
            },
            ReflexType::Rest => ActionResult {
                stimulus: Some(StimulusEffect::Comfort(3)),
                energy_cost: -1,
                description: "休息：放松恢复".to_string(),
            },
            ReflexType::Explore => ActionResult {
                stimulus: Some(StimulusEffect::Threat(1)),
                energy_cost: 2,
                description: "探索：搜索周围环境".to_string(),
            },
        }
    }
}

/// Executing a reflex's action feeds back exactly the stimulus that the reflex
/// is converted to.
pub proof fn lemma_action_stimulus_is_reflex_stimulus(reflex: ReflexType)
    ensures
        spec_action_stimulus(reflex) == spec_reflex_stimulus(reflex),
{
}

/// Every entry of `s` has a priority at least that of every entry after it.
pub open spec fn sorted_by_priority<R>(s: Seq<(i32, R)>) -> bool {
    forall|i: int, j: int| 0 <= i < j < s.len() ==> s[i].0 >= s[j].0
}

/// `after` is `before` with `entry` placed behind every entry whose priority
/// is at least the new one's and ahead of every entry whose priority is lower:
/// the stable descending sort of `before` followed by `entry`, when `before` is
/// already so sorted.
pub open spec fn inserted_by_priority<R>(
    before: Seq<(i32, R)>,
    after: Seq<(i32, R)>,
    entry: (i32, R),
) -> bool {
    exists|p: int|
        0 <= p <= before.len() && after == before.insert(p, entry) && (forall|i: int|
            0 <= i < p ==> #[trigger] before[i].0 >= entry.0) && (forall|i: int|
            p <= i < before.len() ==> #[trigger] before[i].0 < entry.0)
}

/// The arcs of `s` with a priority of at least `priority`, in order.
pub open spec fn spec_at_least<R>(s: Seq<(i32, R)>, priority: i32) -> Seq<(i32, R)> {
    s.filter(|e: (i32, R)| e.0 >= priority)
}

/// The arcs of `s` with a priority below `priority`, in order.
pub open spec fn spec_below<R>(s: Seq<(i32, R)>, priority: i32) -> Seq<(i32, R)> {
    s.filter(|e: (i32, R)| e.0 < priority)
}

/// `s` with `entry` added behind every arc of at least its priority and ahead
/// of every arc of lower priority.
pub open spec fn spec_add_by_priority<R>(s: Seq<(i32, R)>, entry: (i32, R)) -> Seq<(i32, R)> {
    spec_at_least(s, entry.0) + seq![entry] + spec_below(s, entry.0)
}

/// Filtering keeps a sequence whole when every element passes and empties it
/// when none does.
proof fn lemma_filter_all_or_none<A>(s: Seq<A>, pred: spec_fn(A) -> bool)
    ensures
        (forall|i: int| 0 <= i < s.len() ==> pred(s[i])) ==> s.filter(pred) == s,
        (forall|i: int| 0 <= i < s.len() ==> !pred(s[i])) ==> s.filter(pred) == Seq::<A>::empty(),
    decreases s.len(),
{
    reveal_with_fuel(Seq::filter, 1);
    if s.len() > 0 {
        lemma_filter_all_or_none(s.drop_last(), pred);
        assert(s.drop_last().push(s.last()) =~= s);
    }
}

/// Where every arc ahead of position `p` has at least the priority and every
/// arc from `p` on has a lower one, adding by priority inserts at `p`.
proof fn lemma_add_by_priority_at<R>(s: Seq<(i32, R)>, entry: (i32, R), p: int)
    requires
        0 <= p <= s.len(),
        forall|i: int| 0 <= i < p ==> #[trigger] s[i].0 >= entry.0,
        forall|i: int| p <= i < s.len() ==> #[trigger] s[i].0 < entry.0,
    ensures
        spec_add_by_priority(s, entry) == s.insert(p, entry),
{
    let ge = |e: (i32, R)| e.0 >= entry.0;
    let lt = |e: (i32, R)| e.0 < entry.0;
    let head = s.take(p);
    let tail = s.skip(p);
    assert(s =~= head + tail);
    Seq::filter_distributes_over_add(head, tail, ge);
    Seq::filter_distributes_over_add(head, tail, lt);
    lemma_filter_all_or_none(head, ge);
    lemma_filter_all_or_none(head, lt);
    lemma_filter_all_or_none(tail, ge);
    lemma_filter_all_or_none(tail, lt);
    assert(head.filter(ge) == head);
    assert(head.filter(lt) == Seq::<(i32, R)>::empty());
    assert(tail.filter(ge) == Seq::<(i32, R)>::empty());
    assert(tail.filter(lt) == tail);
    assert(spec_add_by_priority(s, entry) =~= s.insert(p, entry));
}

/// The reflex arcs of a creature, kept in order of decreasing priority (a
/// larger number is a higher priority); arcs of equal priority stay in the
/// order in which they were added. Each entry pairs a priority with the arc.
#[derive(Debug)]
pub struct ReflexController<R> {
    reflexes: Vec<(i32, R)>,
}

impl<R> View for ReflexController<R> {
    type V = Seq<(i32, R)>;

    closed spec fn view(&self) -> Seq<(i32, R)> {
        self.reflexes@
    }
}

impl<R> ReflexController<R> {
    #[verifier::type_invariant]
    closed spec fn well_formed(self) -> bool {
        sorted_by_priority(self.reflexes@)
    }

    /// A controller without any reflex arc.
    pub fn empty() -> (c: Self)
        ensures
            c@ == Seq::<(i32, R)>::empty(),
    {
        ReflexController { reflexes: Vec::new() }
    }

    /// The number of reflex arcs.
    pub fn len(&self) -> (n: usize)
        ensures
            n == self@.len(),
            sorted_by_priority(self@),
    {
        proof {
            use_type_invariant(self);
        }
        self.reflexes.len()
    }

    /// Adds a reflex arc with the given priority, keeping the arcs sorted by
    /// decreasing priority; among arcs of equal priority the new one comes last.
    pub fn add_reflex(&mut self, priority: i32, reflex: R)
        ensures
            final(self)@ == spec_add_by_priority(old(self)@, (priority, reflex)),
            inserted_by_priority(old(self)@, final(self)@, (priority, reflex)),
            sorted_by_priority(final(self)@),
    {
        proof {
            use_type_invariant(&*self);
        }
        let ghost before = self.reflexes@;
        let mut reflexes: Vec<(i32, R)> = Vec::new();
        std::mem::swap(&mut reflexes, &mut self.reflexes);
        let mut p: usize = 0;
        while p < reflexes.len() && reflexes[p].0 >= priority
            invariant
                reflexes@ == before,
                sorted_by_priority(before),
                p <= before.len(),
                forall|i: int| 0 <= i < p ==> #[trigger] before[i].0 >= priority,
            decreases before.len() - p,
        {
            p = p + 1;
        }
        proof {
            assert forall|i: int| p <= i < before.len() implies #[trigger] before[i].0 < priority by {
                assert(before[p as int].0 < priority);
            }
        }
        proof {
            lemma_add_by_priority_at(before, (priority, reflex), p as int);
        }
        reflexes.insert(p, (priority, reflex));
        proof {
            let after = reflexes@;
            assert(after == before.insert(p as int, (priority, reflex)));
            assert forall|i: int, j: int| 0 <= i < j < after.len() implies after[i].0
                >= after[j].0 by {
                if i < p {
                    assert(after[i] == before[i]);
                    if j < p {
                        assert(after[j] == before[j]);
                    } else if j > p {
                        assert(after[j] == before[j - 1]);
                    }
                } else if i == p {
                    assert(after[j] == before[j - 1]);
                } else {
                    assert(after[i] == before[i - 1]);
                    assert(after[j] == before[j - 1]);
                }
            }
        }
        self.reflexes = reflexes;
    }

    /// Finds the reflex arc that fires on the current percepts: the first arc,
    /// in order of decreasing priority, for which `is_triggered` answers true.
    /// No arc of strictly higher priority was triggered.
    pub fn process<F: Fn(&R) -> bool>(&self, is_triggered: F) -> (fired: Option<&R>)
        requires
            forall|i: int| 0 <= i < self@.len() ==> is_triggered.requires((&self@[i].1,)),
        ensures
            fired is None ==> forall|i: int|
                0 <= i < self@.len() ==> is_triggered.ensures((&self@[i].1,), false),
            fired matches Some(r) ==> exists|i: int|
                {
                    &&& 0 <= i < self@.len()
                    &&& *r == self@[i].1
                    &&& is_triggered.ensures((&self@[i].1,), true)
                    &&& forall|j: int|
                        0 <= j < i ==> is_triggered.ensures((&self@[j].1,), false)
                    &&& forall|j: int|
                        0 <= j < self@.len() && #[trigger] self@[j].0 > self@[i].0 ==> j < i
                },
    {
        proof {
            use_type_invariant(self);
        }
        let n = self.reflexes.len();
        let mut i: usize = 0;
        while i < n
            invariant
                n == self@.len(),
                i <= n,
                sorted_by_priority(self@),
                forall|k: int| 0 <= k < self@.len() ==> is_triggered.requires((&self@[k].1,)),
                forall|j: int| 0 <= j < i ==> is_triggered.ensures((&self@[j].1,), false),
            decreases n - i,
        {
            let entry = &self.reflexes[i];
            let hit = is_triggered(&entry.1);
            if hit {
                proof {
                    assert forall|j: int|
                        0 <= j < self@.len() && #[trigger] self@[j].0 > self@[i as int].0 implies j
                        < i by {
                        if j >= i {
                            assert(self@[i as int].0 >= self@[j].0);
                        }
                    }
                }
                return Some(&entry.1);
            }
            i = i + 1;
        }
        None
    }
}

/// Adding a reflex arc loses none of the arcs already present and adds exactly
/// the new one: the controller's arcs after the call are, as a multiset, those
/// before it plus the new entry, and the old arcs keep their relative order.
pub proof fn lemma_add_reflex_keeps_every_arc<R>(
    before: Seq<(i32, R)>,
    after: Seq<(i32, R)>,
    entry: (i32, R),
)
    requires
        inserted_by_priority(before, after, entry),
    ensures
        after.to_multiset() == before.to_multiset().insert(entry),
        after.len() == before.len() + 1,
        exists|p: int| 0 <= p < after.len() && after[p] == entry && after.remove(p) == before,
{
    let p = choose|p: int|
        0 <= p <= before.len() && after == before.insert(p, entry) && (forall|i: int|
            0 <= i < p ==> #[trigger] before[i].0 >= entry.0) && (forall|i: int|
            p <= i < before.len() ==> #[trigger] before[i].0 < entry.0);
    vstd::seq_lib::to_multiset_insert(before, p, entry);
    assert(after.remove(p) =~= before);
}

} // verus!
