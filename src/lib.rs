//! A distributed video encoder: a video is split into chunks, the chunks are
//! encoded on several hosts in parallel, and the encoded chunks are joined
//! with the audio again.
//!
//! The library holds the decisions of that process as verified state
//! machines, each a step function from its state and the outcome of the last
//! action to its next state and action:
//! - [`queue`]: the global queue from which every host pulls its next chunk;
//! - [`manager`]: per host, prepares the host, feeds its encoder, and brings
//!   the encoded chunks back;
//! - [`encoder`]: per host, encodes one chunk at a time;
//! - [`run`]: the course of a run, from audio extraction to cleanup, and the
//!   gathering of every host's results;
//! - [`local`], [`naming`], [`order`]: commands, file names and their order;
//! - [`laws`]: properties of the whole, proved over the step functions.
//!
//! Running commands, moving chunks between threads and watching for an
//! interrupt is left to the caller, which reports each outcome back.

use vstd::prelude::*;

pub mod encoder;
pub mod laws;
pub mod local;
pub mod manager;
pub mod naming;
pub mod order;
pub mod queue;
pub mod run;

verus! {

} // verus!
