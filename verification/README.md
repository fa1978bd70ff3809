# outlap-qss

The topology, planning and bookkeeping layer of the outlap quasi-steady-state (QSS) lap solver,
written in Verus with every function's contract proved.

## Layout

- `src/` — the verified library:
  - `drivetrain.rs` — drive units, couplers, wheels; driven masks, axle pairs, radius choice.
  - `graph.rs` — the flattened drive chain of a unit (private path, then the shared coupler graph)
    and the policy-governed unit ids.
  - `powertrain.rs` — how a chain folds into gears, the differential position, the primary geared
    unit and differential, the single gearbox that sets the ERS driveline efficiency, the
    reference source of the governed machine, regen envelope sources, map-install rules.
  - `stack.rs` — the electro slow-stack plan (which pack marches, which `.emotor` rides with it).
  - `thermal.rs` — resolution of an `.emotor` network topology with its first-failure messages.
  - `battery.rs` — the shape rules of a battery pack document.
  - `aero.rs` — aero-map axis roles and query coordinates, the constant-aero choice.
  - `path.rs` — station layout, segment ends, smoothing windows, the sweep order of the passes.
  - `grid.rs` — the g-g-g-v envelope grid layout, the outward fibre march, sensitivity sampling.
  - `qss.rs` — tier dispatch, coupling checks, the profile plan, lap notes, the stint carry.
  - `strings.rs`, `error.rs` — name lookup, decimal rendering, note merging; the error types.
- `tests/` — tests of the library on concrete values.
- `app/` — the runtime around the library: schema conversion, the error surface with rendered
  messages, and the floating-point physics (path sampling, T0 passes, T0 vehicle and T1
  powertrain reduction, aero map) that reads the library's decisions.
