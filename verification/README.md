# emora_core

An electronic creature that senses food and danger, reacts through innate
reflex arcs, remembers its recent experiences and learns the value of its
actions.

- `src/` is the verified library (Verus): the vocabulary of sensors, percepts,
  reflexes, behaviours and drives; the stimulus and energy cost of every
  reflex action; the priority arbitration between reflex arcs; the bounded
  short-term memory; the keys of the learned-value table; and the rule that
  chooses the decision mode. Its laws are proof functions beside the code.
- `app/` is the program around it: the floating-point state of the creature
  (energy, safety, PAD emotion, percept intensities, learned values), the
  sensors, the brains that tick, the console run and the egui window
  (`--gui`).
- `tests/` exercises the library on concrete values.
