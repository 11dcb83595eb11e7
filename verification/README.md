# incin_core

The shape-checking, bookkeeping and serialization core of the Incin deep
learning framework, written in Verus. Verus checks every function of
`src/` against its contract, and the crate's laws are stated as proof
functions beside the code they govern. Two calls into std are trusted,
each behind a small wrapper whose contract names its result: lower-casing a
string, and quoting a string as `Debug` does.

## Layout

- `src/shapes.rs` — shape types described by value, the proof levels they
  establish, and the meet of two levels.
- `src/exec/` — reduction axes and axis sets, validated descriptors and
  their evidence, elementwise broadcasting, symbolic dimensions with their
  environments and constraints, the `Debug` spellings their refusals quote,
  and the autograd tape walk.
- `src/graph.rs` — the captured graph: values, nodes, inputs and outputs,
  and the remapping of frontend symbols to graph-local ones.
- `src/io/` — resource limits for untrusted inputs, and the GGUF container:
  quantization identifiers, metadata, header and aligned payload layout.
- `src/nn/` — module metadata and layer summaries, activations, attention
  path selection and head geometry, key/value cache bookkeeping, loss
  output shapes and mixture-of-experts routing offsets.
- `src/text.rs` — decimal and list spellings used in reported messages.
- `app/` — what stays outside the verified library: the process-wide
  counters and tracing graph, file output of the exporters, the
  floating-point quantizers, and serde forms of the library's types.
- `tests/` — concrete scenarios for the library's functions and laws.
