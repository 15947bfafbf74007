# flexpart_gpu

Verified configuration, calendar and meteorology-contract logic for a
GPU-oriented FLEXPART-style Lagrangian dispersion model, written in Verus.

## Layout

- `src/` — the library; every executable function carries an `ensures`
  contract, checked by Verus for all but the two trusted wrappers
  (`digest::sha256` around `sha2`, `text::string_from_chars` around
  `String::from_iter`), whose contracts Verus takes as given.
  - `text`, `timestamp`, `namelist`, `config`, `input_files`: Fortran-namelist
    input files (`COMMAND`, `RELEASES`, `OUTGRID`, `SPECIES`), key lookups,
    unsigned numbers and `YYYYMMDDHHMMSS` timestamps.
  - `species`: classification of species and the deposition, scavenging and
    decay pathways they take part in.
  - `meteorology`: the canonical meteorology contract — field identities,
    layouts and time semantics, snapshot validation order, accumulated-field
    windows, temporal bracketing, horizontal stencils and vertical indexing.
  - `reference`, `cli`: the pinned reference revision and the fail-closed check
    of a reference checkout.
  - `adapter`, `gpu_sizes`, `digest`, `corpus`, `pbl`: adapter selection flags,
    dispatch size conversions, SHA-256 hex digests, corpus runner arguments and
    mixing-height bookkeeping.
- `tests/` — example-based tests of the library.
- `app/` — ordinary Rust around the library: file, process and environment
  access, JSON documents, the report commands, `wgpu` adapter requests, and
  the floating-point parts (real-valued configuration parameters,
  interpolation weights, accumulated amounts and rates, hybrid pressure and
  height reconstruction, vertical sampling, boundary-layer diagnostics and
  particle-cloud metrics).

Floating-point values never enter the library: where a decision depends on a
real number, the library takes the outcome of the comparison as a `bool`.
