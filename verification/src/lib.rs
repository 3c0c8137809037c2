//! Deployment engine for the dynamic libraries a native binary requires.
//!
//! Given one executable or shared library, the engine discovers every
//! library it (transitively) needs, decides which of those must be supplied
//! next to it, locates a compatible copy among configured search
//! directories, and records a copy of it into the target directory,
//! repeating until no unresolved dependency remains.
//!
//! The engine itself never touches the filesystem or spawns a process: it
//! is a pure function from a log of recorded facts about the outside world
//! (file existence, directory listings, inspection-tool output, performed
//! copies) to either a finished deployment summary, a fatal error, or the
//! next fact it needs.  A thin unverified driver performs each requested
//! action and records the answer.

pub mod classify;
pub mod config;
pub mod deploy;
pub mod engine;
pub mod laws;
pub mod parse;
pub mod text;
pub mod world;
