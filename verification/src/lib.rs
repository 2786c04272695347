//! An interactive line-command shell core: a generic command registry with
//! per-command arity rules, a tokenizer that honours a verbatim trailing
//! argument, a first-match dispatcher, and bounded alias resolution.

pub mod command;
pub mod command_lists;
pub mod config;
pub mod feature;
pub mod rem;
pub mod remdata;
pub mod remfetch;
pub mod remstate;
pub mod text;
pub mod utils;
