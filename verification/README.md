# eda_diff_core

The shared core of EDA-Diff, a tool for semantic comparison of electronic
design files, written in Verus: the canonical EDA model, the KiCad format
adapter and the format-independent semantic diff engine. Each function has a
contract that Verus proves, except the few wrappers in
`src/adapter/kicad/reader.rs` that call into the `lexpr` crate: Verus trusts
their contracts, which state what `lexpr` returns.

- `src/model`: the canonical project, schematic and PCB model. Lengths and
  angles are kept as IEEE-754 bit patterns (`Real`) and compared with IEEE-754
  equality.
- `src/adapter`: the `FormatAdapter` boundary and the KiCad adapter. The text
  is read with the `lexpr` crate (`adapter/kicad/reader.rs` holds every call
  into it); the conversion of the tree into the canonical model is verified
  against specifications of the `.kicad_pcb` and `.kicad_sch` contents.
- `src/diff`: pairing of the objects of two revisions (by identifier, then by
  a fallback key that must be unique on both sides), per-object reports with
  field-level changes, and summaries. `diff/laws.rs` states and proves the
  laws of the diff.
- `app`: the WebAssembly entry point and the serializable (serde) forms of the
  model and of diff reports.
- `tests`: executable tests of the library.
