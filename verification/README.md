# lau-destruction-transform

Destruction-transform pipelines: artifacts are deconstructed into components,
examined to discover hidden wisdom, and rebuilt into new forms once more than
half of their components have yielded a discovery.

- `src/` is the verified library (Verus). Each operation is specified against
  a mathematical model (`ArtifactView`, `LogView`, `EventView`), and
  `src/laws.rs` proves properties of the whole: wisdom is revealed at most
  once, examination conserves wisdom, the rebuild gate, reading back a created
  artifact, the append-only event log, the tick counting attempts, and unique
  artifact names.
- `app/` holds serde-ready copies of the types with conversions, their
  `Display` impls, and the floating-point parts (the transformation rate as an
  `f64`, dissolve rules).
- Condition ratings are carried in the library as the bit pattern of their
  `f64` value.
