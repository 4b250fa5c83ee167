//! Backend core of a desktop AI-companion application.
//!
//! Two independent components: a chat gateway that shapes requests for a
//! local inference server and normalizes its replies, and a state store
//! that reads and writes two singleton JSON documents (affection progress
//! and application settings) with strict or lenient field rules.

pub mod json;
pub mod store;
pub mod chat;
