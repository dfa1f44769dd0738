# openinfer-glm52

The host side of a GLM5.2 inference engine, verified with Verus.

- `src/` is the library. It decides: which options launch, how long a context
  fits, how a rank is built, what a decode step stages and accepts, which
  launches a layer, a draft round or a smoke run consists of, and what their
  results mean. Every function carries a contract; laws that span functions are
  public proof functions beside them.
- `app/` performs: files, clocks, floating point, and the two traits that stand
  for a GPU (`Device`) and for the ranks of an engine (`Fleet`).
- `tests/` runs the library on concrete values.

JSON, the safetensors format, SHA-256, hexadecimal text and byte sizes come from
`serde_json`, `safetensors`, `sha2`, `hex` and `bytesize`. The functions that
call them are marked, and their contracts are taken on trust.
