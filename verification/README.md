# infr_llama

The host side of a token-generation runner: a model's weights, caches and graphs live on a device,
and this library decides what happens to them. It is written in Verus: contracts say what its
functions return or change, and the properties that span functions are proved as `law_*` functions.

- `src/` is the verified library. It performs no I/O and computes no floats: devices, files and
  samplers are driven by the caller, who carries out the plans that the library returns. Real
  constants of a graph are named (`graph_ops::Scalar`) and worked out by the driver.
- `app/` drives a device with those plans. Its `Backend`, `ModelFile`, `Geometry`, `Sampler` and
  `Store` traits are what a host has to provide.
- `tests/` runs the library on concrete values.

Two functions are trusted: `staging` calls `bytemuck` to see words as bytes and back. What is claimed
of those calls is that bytes and words lie in the same memory; the order of the bytes in a word is the
machine's.
