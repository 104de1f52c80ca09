//! A webhook receiver library for account-service event notifications.
//!
//! Inbound events arrive as JSON documents carrying a `transactionType`
//! discriminator that selects one of four variants (signup, handle change,
//! handle creation, key addition).  This crate defines the payload model,
//! the decoder and encoder for the wire format, the human-readable rendering
//! of a decoded event, and the handler that acknowledges a request.
//! The HTTP transport around it lives outside the library.

pub mod handler;
pub mod json;
pub mod types;
