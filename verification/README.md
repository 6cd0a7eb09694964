# minimuas

The decisions and formats of a small fleet of survey drones, verified with
Verus, and the programs around them.

The library (`src/`) holds everything that can be said without a clock, a
socket or a floating-point unit:

- the policy guards, the task queue, the abort ladder and the answers of the
  vehicle service (`policy`, `queue`, `queue_model`, `agent`, `services`);
- the flights as state machines: surveys, orbits, flyovers, takeoffs, idle
  policies, sensor detours and remote control (`flight`, `patterns`,
  `mission`, `driver`, `survey`, `investigate`, `takeoff`, `idle`, `sensor`,
  `detour`, `rc`);
- bring-up and its configuration (`config`, `numerals`, `magnitude`, `address`,
  `bringup`, `names`);
- the journal's lines, how they are spelled and read again, and the Blocks that
  carry them (`journal`, `json`, `spelling`, `blocks`, `chains`);
- what a run's Blocks amount to: dataset, metrics and the rendered artifacts
  with their provenance (`dataset`, `metrics`, `lens`, `render`, `audit`).

A double is a pattern of bits here (`quantity::Real`): the library compares
doubles exactly and never computes with them. Distances, angles and averages
are measured by the caller and handed in.

`agent_laws`, `queue_laws`, `journal_laws`, `dataset_laws` and the public proof functions of the
other modules state what holds across operations: what a refused request leaves
alone, what a split task still owes, that a journal is read back as it was
written, that every section of an artifact cites the Blocks it draws on.

`tests/` runs the library. `app/` holds the `agent` and `artifacts` programs:
command line, sockets, files, timers, floating point and the flight stack.
