//! A development server that serves static files and reloads the browser when they change.
//!
//! This crate decides: which file a request names, what the server answers for what the
//! disk gave, when a burst of file changes becomes one reload, and which clients stay
//! connected. The surrounding program performs the reads, the waits and the network I/O.
pub mod changes;
pub mod client;
pub mod clients;
pub mod content_type;
pub mod events;
pub mod laws;
pub mod location;
pub mod path;
pub mod path_laws;
pub mod reload;
pub mod response;
pub mod script;
pub mod server;
pub mod settings;
pub mod socket;
pub mod step_laws;
pub mod watcher;
