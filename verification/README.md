# ferrox-models

Model loading and scheduling rules for GGUF decoders, verified with Verus.

- `src/` is the library. It reads an opened file as plain values
  (`gguf.rs`), decides which engine serves it (`engine_factory.rs`,
  `capability.rs`), reads the hyperparameters and tensors of each engine
  (`*_gguf_loader.rs`, `gdn.rs`, `mamba2.rs`, `layer_shapes.rs`,
  `norm_sites.rs`), plans what each layer of a pass does
  (`gemma4_engine.rs`, `kimi_decoder.rs`, `mla.rs`, `layer_loops.rs`,
  `hrm.rs`), tokenizes (`kimi_tokenizer.rs`, `tokenizer.rs`), attaches
  adapters (`lora.rs`, `lora_attach.rs`) and drives a generation
  (`kimi_generate.rs`). Floating-point values are carried as bit patterns.
- `app/` holds the numeric passes, written against a back end, and what
  touches files.
- `tests/` runs the library.

A refusal is an error value whose `message` says why; every contract says
on which inputs it comes.
