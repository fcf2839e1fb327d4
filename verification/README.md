# drone_defense

The discrete core of an armoured-vehicle counter-drone simulation, verified
with Verus: the registry of tracked drones, threat classification, soft-kill
engagements, the per-tick resolution of strikes and neutralizations, the
arrival of new waves, the bounded event log, the deterministic generator that
drives the simulation, and the decisions of the operator's terminal display.

Layout:

- `src/kinds.rs` — drone classes, counter-measures, statuses, threat levels and
  their tables; threat classification.
- `src/rng.rs` — the linear congruential generator and identifier numbers.
- `src/geometry.rs` — spawn sites and their distance from the vehicle, computed
  exactly in integers (whole square roots).
- `src/text.rs` — identifiers and log messages, built character for character.
- `src/clock.rs` — the wall-clock stamp read through `chrono`.
- `src/simulator.rs` — the simulation state and its operations.
- `src/tick.rs` — the model of placing drones, of one tick (strikes,
  replacements, new waves) and of the opening drones.
- `src/hud.rs` — key handling and tables of the terminal display.
- `src/laws.rs` — properties that hold across operations.
- `app/` — the program: floating-point kinematics, the web dashboard (axum),
  the terminal display (crossterm), and JSON (serde).

The library tracks every drone itself, including those it places at start-up,
as replacements and in new waves; their distances are computed in integers
from whole-metre positions or from the drawn altitude on the ring. Motion is
floating point and lives in `app/`: after each tick the app reports each
drone's range in whole metres (the floor of the distance, which gives the
same range bands) and whether it has landed, and sets up the motion of each
drone the library reports as newly placed.
The dashboard's page, style sheet and script are read from `web/` at run time.
