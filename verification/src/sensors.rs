//! Sensor and percept vocabulary.

use vstd::prelude::*;

verus! {

/// The kind of a sensor.
#[derive(Debug, Clone, Copy, PartialEq, Eq, Structural)]
pub enum SensorType {
    /// Detects food or danger nearby.
    Proximity,
    /// Reads the creature's own state.
    Internal,
}

/// What a proximity reading found.
#[derive(Debug, Clone, Copy, PartialEq, Eq, Structural)]
pub enum EntityType {
    Food,
    Danger,
    Nothing,
}

/// The kind of a processed percept.
#[derive(Debug, Clone, Copy, PartialEq, Eq, Structural)]
pub enum PerceptType {
    FoodDetected,
    DangerDetected,
    NothingDetected,
    Hungry,
    Safe,
    Threatened,
}

/// The external percept that a proximity reading of `entity` gives rise to.
pub open spec fn spec_external_percept(entity: EntityType) -> PerceptType {
    match entity {
        EntityType::Food => PerceptType::FoodDetected,
        EntityType::Danger => PerceptType::DangerDetected,
        EntityType::Nothing => PerceptType::NothingDetected,
    }
}

impl EntityType {
    /// The kind of the external percept that a proximity reading of this entity
    /// produces: food is perceived as food, danger as danger, and an empty
    /// reading as nothing.
    pub fn percept_type(&self) -> (p: PerceptType)
        ensures
            p == spec_external_percept(*self),
    {
        match self {
            EntityType::Food => PerceptType::FoodDetected,
            EntityType::Danger => PerceptType::DangerDetected,
            EntityType::Nothing => PerceptType::NothingDetected,
        }
    }
}

/// The sensor that reads the creature's own energy.
#[derive(Debug, Clone, Copy, PartialEq, Eq, Structural)]
pub struct InternalSensor;

impl InternalSensor {
    pub fn new() -> (s: Self)
        ensures
            s == InternalSensor,
    {
        InternalSensor
    }
}

} // verus!
