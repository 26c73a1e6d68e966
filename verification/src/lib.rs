//! A WebSocket front for text-to-speech backends that speak the
//! `POST /v1/audio/speech` protocol.
//!
//! The library holds what the bridge decides: how client messages are read, which
//! request each utterance sends, how backend bytes are cut into audio frames, and
//! which frame answers which event. Sockets and HTTP live in the program around it.
pub mod audio;
pub mod config;
pub mod effects;
pub mod frame;
pub mod health;
pub mod json;
pub mod laws;
pub mod meanings;
pub mod message;
pub mod proxy;
pub mod session;
pub mod text;
