# mantis

A procedurally animated mantis for the Bevy engine, with its control and
animation decisions verified in Verus.

- `src/` is the verified library, on plain values:
  - `movement`: the movement modes and the mode key that cycles them, which
    control drives the mantis in each mode, and the heading asked for by the
    held movement keys;
  - `arc_length`: locating a distance among the samples of an arc-length
    table (a binary search and the choice of the span to interpolate);
  - `chain`: the step schedules of the chain solvers (the backward and forward
    passes of FABRIK legs, also walked by the abdomen), and the stepping
    decision of a leg's foot.
- `app/` is the Bevy program: scene set-up, spawning the mantis, the ECS
  systems, and the floating-point geometry, which follow the library's
  decisions.
- `tests/` exercises the library.
