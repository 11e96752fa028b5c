//! Room coordination and playback synchronisation for watching one local
//! video together: the rendezvous service's room registry and session
//! store, the message fan-out, and the client's synchronisation core.
pub mod controller;
pub mod digest;
pub mod html;
pub mod invite;
pub mod names;
pub mod protocol;
pub mod registry;
pub mod room;
pub mod service;
pub mod stats;
pub mod supervisor;
pub mod text;
pub mod version;
pub mod youtube;
