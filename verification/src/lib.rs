//! Model loading and scheduling rules for GGUF decoders.

pub mod capability;
pub mod config;
pub mod decoder;
pub mod engine;
pub mod engine_factory;
pub mod execution_plan;
pub mod gdn;
pub mod gemma4_engine;
pub mod gemma4_gguf_loader;
pub mod gguf;
pub mod glm52_decoder;
pub mod glm52_gguf_loader;
pub mod hrm;
pub mod hybrid_gguf_loader;
pub mod kimi_decoder;
pub mod kimi_generate;
pub mod kimi_tokenizer;
pub mod kv_head_dims;
pub mod layer_loops;
pub mod layer_shapes;
pub mod load_error;
pub mod lora;
pub mod lora_attach;
pub mod mamba2;
pub mod metal_launch;
pub mod mla;
pub mod mla_arch;
pub mod mla_gguf_loader;
pub mod mla_q_proj;
pub mod mla_yarn;
pub mod moe_interleave;
pub mod mrope;
pub mod mtp_blocks;
pub mod norm;
pub mod norm_sites;
pub mod rank_table;
pub mod text;
pub mod tokenizer;
pub mod weights;
