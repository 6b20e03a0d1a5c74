//! Process-inspection logic: parsers for `/proc` text, kernel-value
//! explanations, signal-impact analysis, ring buffers and UI state.
use vstd::prelude::*;

pub mod text;
pub mod explain;
pub mod ringbuf;
pub mod proc_text;
pub mod impact;
pub mod sorting;
pub mod env;
pub mod sampler;
pub mod proc_reader;
pub mod model;
pub mod kernel;
pub mod network;
pub mod portmon;
pub mod cli;
pub mod control;
pub mod alert;
pub mod daemon;
pub mod tree;
pub mod snapshot;
pub mod gpu;
pub mod report;
pub mod terminal;
