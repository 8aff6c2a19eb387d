# oxiflow

A generic engine for transport–reaction–diffusion problems, split in two:

- `src/` — the verified core, written in Verus: the typed keys of the
  compute context (`ContextVariable`, `PhysicalQuantity`, `DomainId`), the
  engine's errors and their renderings, the multi-domain state container and
  the variable store, the interfaces of models, calculators, boundary
  conditions and coupling operators, the merging of requirement lists, and
  the index logic of the spatial operators (periodic wrap, stencil node
  selection, truncation ranges, ghost-cell padding). Every public function
  carries a contract; the laws relating several functions are public proof
  functions next to them.
- `app/` — the numerical layer in plain Rust: dense vectors and matrices
  (`nalgebra`), the compute context, meshes, the finite-difference,
  finite-volume, WENO and flux-limited stencil arithmetic, the boundary
  formulas, and the serialisable (`serde`) forms of the core types.
- `tests/` — tests of the core, run against the compiled library.
