# diplomacy

An adjudicator for the board game Diplomacy, written in Verus. The rules of the build and
retreat phases, the legality of submitted orders, the parser, the calendar and the map queries
are stated as contracts on the library's functions and checked by the verifier.

For the main phase, the contracts state the outcome of each order exactly when the resolver
holds a certain result for every order; while it is still guessing, they state only what holds
of every outcome. `Outcome::is_fixed_point` checks, when it runs, that the outcomes are a fixed
point of the rules: the resolver knows every order, and holds for each the success that its
outcome gives it. Its contract then gives each outcome as the rules' judgment of its order
under those successes. The DATC tests check this for every case, and check that resolution
never ran out of its nesting budget (`Outcome::budget_spent`).

## Layout

- `src/geo`: provinces, regions, borders and the standard map.
- `src/order`, `src/parser`: orders of each phase, their written form and its parser.
- `src/judge`: adjudication.
  - main phase: `submission` (illegal orders, generated holds), `resolver` (guess-based
    resolution of dependent orders), `rulebook` (the rules and editions), `calc`, `support`,
    `convoy`, `strength`, `outcome`.
  - `retreat`: dislodged units, their destinations, and retreat outcomes.
  - `build`: build and disband orders, the builds each nation is owed, and civil disorder,
    whose distances come from a `petgraph` graph of the map.
- `src/calendar.rs`, `src/time.rs`: turns of a game and their numbering.
- `tests/`: the DATC cases and further scenarios.
- `app/`: a runner for test cases written as JSON, with `serde` copies of the types it reads
  and writes.
