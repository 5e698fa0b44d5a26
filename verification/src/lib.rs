//! Verified core of an artificial creature: the vocabulary of its percepts and
//! actions, the stimulus each of its actions feeds back, the priority
//! arbitration between its innate reflexes, its bounded short-term memory, the
//! keys of its learned values, and the rule that picks its decision mode.

pub mod behavior;
pub mod memory;
pub mod reflex;
pub mod sensors;

pub use behavior::{decide_mode, ActionMode, Behavior, BehaviorController, Motivation};
pub use memory::{state_action_key, ShortTermMemory};
pub use reflex::{
    reflex_to_stimulus, Action, ActionExecutor, ActionResult, ReflexController, ReflexType,
    StimulusEffect,
};
pub use sensors::{EntityType, InternalSensor, PerceptType, SensorType};
