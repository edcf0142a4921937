//! Engine dispatch bridge for statistical analysis requests.
//!
//! The library covers the computational core of dispatching an analysis
//! request to an external scripting engine ("r" or "python"): resolving an
//! analysis identifier to a script, transposing row-oriented data into
//! columns, assembling the flat variable namespace with deterministic
//! collision handling, building and serializing the engine-specific request
//! envelope, and normalizing the engine's response envelope into one
//! canonical result.  All process and filesystem I/O stays outside.

pub mod assemble;
pub mod dispatch;
pub mod engine;
pub mod envelope;
pub mod json;
pub mod locate;
pub mod normalize;
pub mod packages;
pub mod parse;
pub mod resolve;
pub mod ser;
pub mod storage;
pub mod summary;
pub mod text;
pub mod transpose;
