use emora_core::memory::{state_action_key, ShortTermMemory};

#[test]
fn new_memory_is_empty_at_step_zero() {
    let m: ShortTermMemory<u32> = ShortTermMemory::new(3);
    assert!(m.all().is_empty());
    assert_eq!(m.get_timestep(), 0);
    assert_eq!(m.get_capacity(), 3);
}

#[test]
fn remember_below_capacity_appends() {
    let mut m = ShortTermMemory::new(3);
    m.remember(1);
    m.remember(2);
    assert_eq!(m.all(), &vec![1, 2]);
}

#[test]
fn remember_when_full_forgets_oldest() {
    let mut m = ShortTermMemory::new(3);
    for x in 1..=5 {
        m.remember(x);
    }
    assert_eq!(m.all(), &vec![3, 4, 5]);
}

#[test]
fn memory_keeps_last_capacity_items() {
    let mut m = ShortTermMemory::new(4);
    let history: Vec<u32> = (0..11).collect();
    for x in &history {
        m.remember(*x);
        assert!(m.all().len() <= 4);
    }
    assert_eq!(m.all().as_slice(), &history[history.len() - 4..]);
}

#[test]
fn capacity_one_keeps_newest() {
    let mut m = ShortTermMemory::new(1);
    m.remember("a");
    m.remember("b");
    assert_eq!(m.all(), &vec!["b"]);
}

#[test]
fn default_memory_holds_one_hundred() {
    let mut m: ShortTermMemory<usize> = ShortTermMemory::default();
    for x in 0..101 {
        m.remember(x);
    }
    assert_eq!(m.get_capacity(), 100);
    assert_eq!(m.all().len(), 100);
    assert_eq!(m.all()[0], 1);
    assert_eq!(m.all()[99], 100);
}

#[test]
fn recent_returns_last_entries_oldest_first() {
    let mut m = ShortTermMemory::new(10);
    for x in 1..=5 {
        m.remember(x);
    }
    assert_eq!(m.recent(2), vec![&4, &5]);
    assert_eq!(m.recent(5), vec![&1, &2, &3, &4, &5]);
    assert_eq!(m.recent(9), vec![&1, &2, &3, &4, &5]);
    assert!(m.recent(0).is_empty());
}

#[test]
fn recent_of_empty_memory_is_empty() {
    let m: ShortTermMemory<i32> = ShortTermMemory::new(2);
    assert!(m.recent(2).is_empty());
}

#[test]
fn clear_forgets_everything_but_keeps_time() {
    let mut m = ShortTermMemory::new(2);
    m.remember(7);
    m.tick();
    m.clear();
    assert!(m.all().is_empty());
    assert_eq!(m.get_timestep(), 1);
    m.remember(8);
    assert_eq!(m.all(), &vec![8]);
}

#[test]
fn tick_advances_time_only() {
    let mut m = ShortTermMemory::new(2);
    m.remember('x');
    m.tick();
    m.tick();
    assert_eq!(m.get_timestep(), 2);
    assert_eq!(m.all(), &vec!['x']);
    m.remember('y');
    assert_eq!(m.get_timestep(), 2);
}

#[test]
fn state_action_key_joins_with_colon() {
    assert_eq!(state_action_key("Hungry:0.43", "SeekFood"), "Hungry:0.43:SeekFood");
    assert_eq!(state_action_key("", "Rest"), ":Rest");
    assert_eq!(state_action_key("Nothing", ""), "Nothing:");
}

#[test]
fn distinct_pairs_get_distinct_keys() {
    let a = state_action_key("FoodDetected:0.90", "Flee");
    let b = state_action_key("FoodDetected", "0.90:Flee");
    // The second action holds a colon; with colon-free actions keys differ.
    assert_eq!(a, b);
    assert_ne!(state_action_key("A:B", "Rest"), state_action_key("A", "BRest"));
    assert_ne!(state_action_key("A:B", "Rest"), state_action_key("A:B", "Flee"));
    assert_ne!(state_action_key("A:B", "Rest"), state_action_key("A:C", "Rest"));
}
