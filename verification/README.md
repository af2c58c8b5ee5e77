# lib: generators, coroutines and state machines, with proofs

A generator is a value that, when stepped, either yields an item together with the rest of
the generator or returns a final value. A coroutine is the same with an input on each step;
a state machine takes an input and moves on to a next state or exits. This crate provides
the three abstractions and combinators over them (mapping, racing, running all, joining,
chaining, applying, composing, iterating), and proves with Verus what each one does.

## Layout

- `src/gen`: the `Generator` trait, `GenResult`, and the generator combinators.
- `src/co.rs`, `src/race.rs`, `src/join.rs`, `src/map`, `src/comb`, `src/iter`: coroutines
  and their combinators.
- `src/fsm`: states and transitions.
- `src/cat`, `src/meta`: sums and products up to isomorphism.
- `src/never.rs`: the type with no values, which ends enumerations.
- `tests/`: executable tests.
- `app/`: the `each!` loop macro and the `enums!` type macro, which stand outside the
  verified library.

## What is proved

Every generator (coroutine) states in `steps_to` (`sends_to`) what one step may give, and
`next` (`send`) is proved to give such a step. On top of that, `runs`, `yields_to`,
`co_runs` and `co_yields_to` describe whole runs, and each combinator comes with proof
functions that say which run it makes of the runs of its parts: for example, a race yields
the items of its two generators in turns and returns the value of the one that finished
first with the other as it was left.
