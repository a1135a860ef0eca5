//! Input batches for a llama.cpp decoder.
//!
//! A batch carries up to a fixed number of tokens, embedding rows, or both, in the flat
//! arrays that the decoder reads. Every operation on a batch is described by a function on
//! its mathematical model ([`model::BatchView`]). What each operation answers, and what it
//! leaves in each field of a batch, is proved in [`effects`]; the properties that span several
//! operations are proved in [`laws`].

pub mod effects;
pub mod error;
pub mod laws;
pub mod llama_batch;
pub mod memory;
pub mod model;
pub mod token;
