use emora_core::behavior::{decide_mode, ActionMode, Behavior, BehaviorController};
use emora_core::reflex::StimulusEffect;
use emora_core::sensors::{EntityType, InternalSensor, PerceptType};

#[test]
fn few_memories_use_reflexes() {
    assert_eq!(decide_mode(0), ActionMode::Reflex);
    assert_eq!(decide_mode(10), ActionMode::Reflex);
}

#[test]
fn many_memories_use_hybrid() {
    assert_eq!(decide_mode(11), ActionMode::Hybrid);
    assert_eq!(decide_mode(100), ActionMode::Hybrid);
    assert_eq!(decide_mode(usize::MAX), ActionMode::Hybrid);
}

#[test]
fn learned_mode_is_never_chosen_and_hybrid_stays() {
    let mut was_hybrid = false;
    for n in 0..200 {
        let mode = decide_mode(n);
        assert_ne!(mode, ActionMode::Learned);
        if was_hybrid {
            assert_eq!(mode, ActionMode::Hybrid);
        }
        was_hybrid = mode == ActionMode::Hybrid;
    }
}

#[test]
fn behavior_stimuli() {
    assert_eq!(
        BehaviorController::stimulus_for(&Behavior::SeekFood, true),
        Some(StimulusEffect::Food(5))
    );
    assert_eq!(BehaviorController::stimulus_for(&Behavior::SeekFood, false), None);
    assert_eq!(
        BehaviorController::stimulus_for(&Behavior::Explore, false),
        Some(StimulusEffect::Threat(2))
    );
    assert_eq!(
        BehaviorController::stimulus_for(&Behavior::Rest, true),
        Some(StimulusEffect::Comfort(1))
    );
    assert_eq!(BehaviorController::stimulus_for(&Behavior::Idle, true), None);
}

#[test]
fn entity_percepts() {
    assert_eq!(EntityType::Food.percept_type(), PerceptType::FoodDetected);
    assert_eq!(EntityType::Danger.percept_type(), PerceptType::DangerDetected);
    assert_eq!(EntityType::Nothing.percept_type(), PerceptType::NothingDetected);
}

#[test]
fn internal_sensor_new() {
    assert_eq!(InternalSensor::new(), InternalSensor);
}
