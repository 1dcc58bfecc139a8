//! Port mailbox and message-buffer subsystem for a plugin UI.
//!
//! A plugin's detached graphical front-end exchanges data with the plugin
//! through numbered port slots: scalar control values travel through control
//! ports, variable-length type-tagged byte messages through atom ports.  This
//! crate holds the verified core of that channel: the growable message
//! buffers with read-once consumption, the two port kinds, the directory that
//! routes inbound events to ports, and the write-back scan that collects
//! pending outbound state.  Message bodies are opaque bytes here; decoding
//! and the host-facing plumbing live outside this crate.

pub mod buffer;
pub mod directory;
pub mod errors;
pub mod ports;
