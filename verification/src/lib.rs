//! A persistent-REPL multiplexer core: a registry of named interactive child
//! processes, the policy that spawns, reuses and replaces them, the shaping
//! pipeline that prepares caller input for a child's standard input, and the
//! quiet-period protocol that collects the child's reply.
//!
//! The surrounding daemon (socket handling, configuration files, the event
//! loop that performs the actual pipe reads and writes) lives outside this
//! library and drives it through the functions and state machines here.

pub mod config;
pub mod process_manager;
pub mod server;
pub mod session;
pub mod shaping;
