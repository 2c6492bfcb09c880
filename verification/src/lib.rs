//! A publish/subscribe bridge core: a subject filter matcher, a fan-out hub
//! with per-handle bounded buffers, and the per-message logic of the
//! upstream ingestor and of a client session.

pub mod hub;
pub mod ingestor;
pub mod matcher;
pub mod message;
pub mod session;
