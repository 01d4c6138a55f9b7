//! Decision logic of a live-reloading static file server.
//!
//! The crate holds the rules that sit between the operating system and the
//! browser: which filesystem events count as a change, which paths are hidden
//! or ignored, how a request path is resolved below the served root, what is
//! answered for it, and which script is appended to a served page. Reading
//! files, watching directories and talking HTTP are left to the caller, who
//! hands the outcomes in as plain values.

pub mod events;
pub mod ignore_filter;
pub mod listing;
pub mod options;
pub mod paths;
pub mod responder;
pub mod script;
pub mod session;
pub mod startup;
pub mod template;

pub use options::Options;
