//! A small interactive shell's core: parsing a line into a pipeline and deciding, stage by
//! stage, what the shell does with it.
pub mod command;
pub mod laws;
pub mod message;
pub mod parse;
pub mod pipeline;
