//! A small, verified core for a single-threaded HTTP responder that serves a
//! few static pages and exposes one credential-gated endpoint for rewriting
//! its own settings file (host, port, static asset directory).
//!
//! The library holds all request routing, settings-file parsing and
//! rendering, credential parsing, the update decision, and HTTP response
//! framing. Socket and file handling live outside the library.

pub mod config;
pub mod credentials;
pub mod http;
pub mod text;
pub mod update;

pub use config::Config;
pub use config::ConfigV;
