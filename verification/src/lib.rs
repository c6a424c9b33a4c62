//! Streaming, tool-augmented chat turns.
//!
//! A turn takes the stored conversation and a new user message, asks a
//! streaming model for an answer, reassembles any tool calls the model makes
//! from the fragments of the stream, has them executed, and asks the model
//! again with the results. Everything that decides is here and verified; the
//! network, the socket and the tool invocations are performed by the caller,
//! which feeds their outcomes back as events.

pub mod accumulator;
pub mod auth;
pub mod conduct;
pub mod config;
pub mod delta;
pub mod dispatch;
pub mod kb_tools;
pub mod marker;
pub mod models;
pub mod relay;
pub mod request;
pub mod splitter;
pub mod text;
pub mod tools;
pub mod turn;
