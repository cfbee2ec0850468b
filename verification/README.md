# orpheus

A verified library for a digital audio workstation aimed at guitar-centred
composition, with a small command-line program around it.

- `src/` — the library, written in Verus. Every function carries a
  contract, and the properties that span several operations (undo gives
  back what an edit changed, the project container opens to what was
  framed, the history keeps its bounds, orderings stay sorted) are stated
  and proved as proof functions.
- `tests/` — tests of the library on concrete values.
- `app/` — the program: file and settings I/O, the serialisable copies of
  the project types, and the measurements that need floating point
  (measure statistics, style fingerprints, anomaly scores and rewrite
  plans, which rest on the library's counts, region grouping and
  prescription decisions).
