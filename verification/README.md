# mavfleet

A manager for fleets of simulated PX4 vehicles: MAVLink links, the vehicle
life cycle, the supervisor's tick, the operator's control plane, a mission
catalog and a flight-log browser.

- `src/` is the library. It is written in Verus: every function carries a
  contract, and the laws that span functions are public proof functions,
  beside the functions they speak of or in the `*_laws` modules.
- `tests/` runs the library.
- `app/` is the program around it: sockets, processes, files, HTTP and the
  floating-point geometry whose results the library takes as facts.

Floating-point numbers pass through the library as bit patterns; `float`
holds what it needs to know of them. Time, file contents and process states
come in as plain values, so the machines (`link`, `supervisor`, `engage`,
`allocation`, `sitl`) are functions of what they are told.

What the library takes on trust from outside is marked
`#[verifier::external_body]` and described in place: JSON parsing
(`serde_json`, in `json`) and a few text functions of the standard library.
