# Batches for llama.cpp

A batch is what a llama.cpp decoder is given: tokens, embedding rows, or both, in flat arrays,
with the positions and sequences of each and a flag that says whether its logits are wanted.

- `src/` is the verified library. `model.rs` says what a batch is and what each operation makes
  of it; `llama_batch.rs` is the batch itself, proved against that model; `laws.rs` proves what
  holds across operations; `memory.rs` holds the array primitives, `error.rs` the errors and
  their texts, `token.rs` the token identifiers.
- `tests/` runs the library.
- `app/` puts a batch into the memory of llama.cpp: it allocates the decoder's arrays through
  `llama-cpp-sys-2`, fills them from the library's batch, and frees them. Building it takes
  libclang and CMake.

Embedding values pass through the library as the bit patterns of 32-bit floats: it stores and
lays them out, and computes nothing with them.
