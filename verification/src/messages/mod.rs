//! The open chat: its messages, the composer below them and the header above.

pub mod action;
pub mod changes;
pub mod compose_laws;
pub mod composer;
pub mod history;
pub mod laws;
pub mod media;
pub mod modes;
pub mod query;
pub mod rows;
pub mod status;
pub mod store;
pub mod store_laws;
pub mod view;
