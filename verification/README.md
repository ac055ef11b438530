# lso

Verified core of an LSO (Landing Signal Officer) assistant for DCS carrier recoveries.

`src/` is the library, written and proved with Verus:

- `notation`: DCS LSO shorthand decoded into plain English.
- `grading`: pass grades, severity bands, the episode model of the continuous approach
  (splitting, post-peak correction, weighting) and the reason given with a grade.
- `telemetry`, `collector`: alignment decisions for carrier/aircraft observation pairs, and the
  sequence, loss and diagnostics accounting of buffered position reads.
- `outcome`, `report`, `recording`: recovery outcomes and identifiers, what a report states about
  its evidence, and the decisions of the recording loop.
- `correlator`, `hub`, `ownship`: event correlation, the session event journal and the ownship
  hook diagnostics.
- `pipeline`, `candidates`, `data`, `metrics`, `offline`, `build_support`: report publication
  claims, pilot identity, the aircraft/carrier catalogue, runtime counters, the offline A/B
  helpers and the build-time helpers.
- `text`, `decimal`: the string and number formatting the rest is specified with.

`app/` holds the command line and the measurements done with floating point (degrees, metres,
seconds), which classify samples before the library grades them. `tests/` exercises the library.
