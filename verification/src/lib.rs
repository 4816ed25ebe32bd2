//! Decision logic of a token-generation runner that keeps a model's state on a device.
//!
//! The device itself (its buffers, compiled graphs and kernels) is driven by the caller. This crate
//! holds everything that is decided on the host: which tokens are resident, where a prompt may
//! resume, how a batch is cut into steps, how large every buffer must be, which copies a checkpoint
//! needs, which operations a graph is made of, and what each of its tensors is bound to. Contracts
//! say what its functions return or change.
//!
//! - Slots and conversations: [`seam_kv`], [`slot`], [`slot_alloc`], [`segmented_kv`],
//!   [`checkpoint`], [`session_state`], [`restore_order`], [`prefix`], [`prompt`].
//! - Batches and loops: [`prefill`], [`decode`], [`parallel_prefill`], [`parallel_decode`],
//!   [`share`], [`speculative`], [`canvas`], [`rope`], [`batch_io`], [`staging`].
//! - Model files and weights: [`tensor_scan`], [`weight_names`], [`weight_plan`],
//!   [`weight_handles`], [`weight_load`], [`gates`].
//! - Graphs: [`graph`] builds them; [`graph_steps`] says for which work; [`bindings`] and
//!   [`step_bindings`] bind them. The `flow_*` modules prove that a graph reads only what is there,
//!   [`numbering`] and [`scratch_numbers`] that its tensors have numbers of their own, and
//!   [`sparse_boundary`] that no batch crosses from dense to sparse attention.
//! - What it comes to: [`graph_values`] says what the tensors of a graph hold and [`device_memory`]
//!   what device memory holds; [`state_copies`] and the `*_laws` modules prove by them what a layer
//!   computes, what a copy brings where, from which tensor a weight is read, which buffer a tensor
//!   is bound to, and that every buffer has room.

pub mod attention_laws;
pub mod attention_plan;
pub mod batch_io;
pub mod binding_laws;
pub mod bindings;
pub mod canvas;
pub mod checkpoint;
pub mod choice_laws;
pub mod compressed_laws;
pub mod config;
pub mod decode;
pub mod device;
pub mod device_memory;
pub mod error;
pub mod flow_attention;
pub mod flow_bind;
pub mod flow_build;
pub mod flow_ffn;
pub mod flow_mixers;
pub mod gates;
pub mod graph;
pub mod graph_attention;
pub mod graph_block_laws;
pub mod graph_build;
pub mod graph_dims;
pub mod graph_ffn;
pub mod graph_flow;
pub mod graph_inputs;
pub mod graph_layer;
pub mod graph_mixers;
pub mod graph_ops;
pub mod graph_scratch;
pub mod graph_steps;
pub mod graph_values;
pub mod handle_laws;
pub mod head_laws;
pub mod layer_laws;
pub mod mixer_laws;
pub mod numbering;
pub mod parallel_decode;
pub mod parallel_prefill;
pub mod plan_laws;
pub mod prefill;
pub mod prefix;
pub mod prompt;
pub mod restore_order;
pub mod room_laws;
pub mod rope;
pub mod scratch_numbers;
pub mod seam_kv;
pub mod segmented_kv;
pub mod session_laws;
pub mod session_state;
pub mod share;
pub mod slot;
pub mod slot_alloc;
pub mod sparse_boundary;
pub mod speculative;
pub mod staging;
pub mod state_copies;
pub mod state_laws;
pub mod step_bindings;
pub mod step_laws;
pub mod stream_laws;
pub mod tensor_scan;
pub mod text;
pub mod text_laws;
pub mod turn_laws;
pub mod weight_handles;
pub mod weight_load;
pub mod weight_name_laws;
pub mod weight_names;
pub mod weight_plan;
pub mod work_laws;
