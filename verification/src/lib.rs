//! Decision logic of a small continuous-integration client: the credential
//! file format, the decoding of the server's status documents, and the
//! trigger / wait / stream / cancel state machine, all stated over
//! mathematical models and proved.

pub mod text;
pub mod config;
pub mod status;
pub mod console;
pub mod orchestrator;
pub mod laws;
pub mod command;
