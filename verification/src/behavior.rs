//! Behaviour outside of reflexes: the creature's drives, its fallback
//! behaviours, and the rule that chooses how it decides.

use vstd::prelude::*;
use crate::reflex::StimulusEffect;

verus! {

/// A drive of the creature.
#[derive(Debug, Clone, Copy, PartialEq, Eq, Structural)]
pub enum Motivation {
    Hunger,
    Safety,
    Exploration,
    Rest,
}

/// A behaviour the creature falls back on when no reflex fires.
#[derive(Debug, Clone, Copy, PartialEq, Eq, Structural)]
pub enum Behavior {
    SeekFood,
    Explore,
    Rest,
    Idle,
}

/// How the creature decides what to do.
#[derive(Debug, Clone, Copy, PartialEq, Eq, Structural)]
pub enum ActionMode {
    /// Innate reflexes only.
    Reflex,
    /// What it has learned.
    Learned,
    /// Both.
    Hybrid,
}

/// The number of remembered experiences beyond which the creature leaves
/// pure reflex mode.
pub const HYBRID_MEMORY_THRESHOLD: usize = 10;

/// The decision mode for a creature with `memory_count` remembered experiences.
pub open spec fn spec_decide_mode(memory_count: nat) -> ActionMode {
    if memory_count > HYBRID_MEMORY_THRESHOLD {
        ActionMode::Hybrid
    } else {
        ActionMode::Reflex
    }
}

/// Chooses how to decide: on innate reflexes alone while the creature remembers
/// at most ten experiences, in hybrid mode once it remembers more. The learned
/// mode is never chosen.
pub fn decide_mode(memory_count: usize) -> (mode: ActionMode)
    ensures
        mode == spec_decide_mode(memory_count as nat),
        mode != ActionMode::Learned,
{
    if memory_count > HYBRID_MEMORY_THRESHOLD {
        ActionMode::Hybrid
    } else {
        ActionMode::Reflex
    }
}

/// Once the creature has left reflex mode, remembering more never brings it
/// back: the decision mode is monotone in the number of memories.
pub proof fn lemma_decide_mode_monotone(fewer: nat, more: nat)
    requires
        fewer <= more,
        spec_decide_mode(fewer) == ActionMode::Hybrid,
    ensures
        spec_decide_mode(more) == ActionMode::Hybrid,
{
}

/// The stimulus that carrying out `behavior` produces, where `found_food`
/// tells whether a search for food succeeded.
pub open spec fn spec_behavior_stimulus(behavior: Behavior, found_food: bool) -> Option<
    StimulusEffect,
> {
    match behavior {
        Behavior::SeekFood => if found_food {
            Some(StimulusEffect::Food(5))
        } else {
            None
        },
        Behavior::Explore => Some(StimulusEffect::Threat(2)),
        Behavior::Rest => Some(StimulusEffect::Comfort(1)),
        Behavior::Idle => None,
    }
}

/// Chooses fallback behaviours and what they bring about.
pub struct BehaviorController;

impl BehaviorController {
    /// The stimulus that carrying out `behavior` produces: a successful search
    /// for food yields a little food and a failed one nothing, exploring meets a
    /// threat, resting brings comfort, and idling does nothing. `found_food`
    /// is the outcome of the chance draw made when seeking food.
    pub fn stimulus_for(behavior: &Behavior, found_food: bool) -> (s: Option<StimulusEffect>)
        ensures
            s == spec_behavior_stimulus(*behavior, found_food),
            *behavior == Behavior::SeekFood && found_food ==> s == Some(StimulusEffect::Food(5)),
            *behavior == Behavior::SeekFood && !found_food ==> s is None,
            *behavior == Behavior::Explore ==> s == Some(StimulusEffect::Threat(2)),
            *behavior == Behavior::Rest ==> s == Some(StimulusEffect::Comfort(1)),
            *behavior == Behavior::Idle ==> s is None,
    {
        match behavior {
            Behavior::SeekFood => if found_food {
                Some(StimulusEffect::Food(5))
            } else {
                None
            },
            Behavior::Explore => Some(StimulusEffect::Threat(2)),
            Behavior::Rest => Some(StimulusEffect::Comfort(1)),
            Behavior::Idle => None,
        }
    }
}

/// What each fallback behaviour brings about: a search for food yields five
/// units of food when it succeeds and nothing when it fails; exploring always
/// meets a threat of two; resting always brings a comfort of one, and idling
/// never brings anything, whatever the outcome of the food search.
pub proof fn lemma_behavior_stimuli(found_food: bool)
    ensures
        spec_behavior_stimulus(Behavior::SeekFood, true) == Some(StimulusEffect::Food(5)),
        spec_behavior_stimulus(Behavior::SeekFood, false) is None,
        spec_behavior_stimulus(Behavior::Explore, found_food) == Some(StimulusEffect::Threat(2)),
        spec_behavior_stimulus(Behavior::Rest, found_food) == Some(StimulusEffect::Comfort(1)),
        spec_behavior_stimulus(Behavior::Idle, found_food) is None,
{
}

/// The outcome of the food search matters only when the creature seeks food:
/// every other behaviour brings about the same stimulus either way, and only
/// seeking food can bring food.
pub proof fn lemma_found_food_only_matters_when_seeking(behavior: Behavior)
    ensures
        behavior != Behavior::SeekFood ==> spec_behavior_stimulus(behavior, true)
            == spec_behavior_stimulus(behavior, false),
        forall|found_food: bool, amount: u32|
            spec_behavior_stimulus(behavior, found_food) == Some(StimulusEffect::Food(amount))
                ==> behavior == Behavior::SeekFood && found_food,
{
}

} // verus!
