# flight_sim

The rules of a browser flight simulator, written in Rust and proved with Verus.

* `src/` holds the rules: terrain streaming and runway layout, engine and control
  handling, aerodynamics, landing gear, mass and balance, cameras, day and night,
  the map and the instruments. Every function states what it returns, and public
  proof functions state what holds of several together.
* `app/` is the program around them: the engine's systems, input, drawing, and what
  is computed in floating point (noise, trigonometry, exponentials, rotations).
* `tests/` runs the rules on concrete values.

Quantities are integers with nine decimals: one metre is `1_000_000_000`. Spans of
time are nanoseconds. Angles are in radians unless a name says otherwise.
