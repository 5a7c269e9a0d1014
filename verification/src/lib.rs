//! siggy: the verified core of a terminal Signal client.
//!
//! The modules hold the decision logic of the client: composer markup and
//! input-buffer editing, voice-note metadata, menu shortcuts, link
//! extraction and file vetting, the boundary event vocabulary, the mapping of
//! received envelopes to events and their crash journal, and the backend
//! policies (reconnect schedule, send planning, store locations).
pub mod app;
pub mod autocomplete;
pub mod audio;
pub mod backend;
pub mod clock;
pub mod compose;
pub mod conversation;
pub mod editing;
pub mod image_scan;
pub mod join;
pub mod lock;
pub mod paths;
pub mod reactions;
pub mod text;
pub mod types;
