//! The list of chats.
pub mod chats;
pub mod laws;
pub mod list;
pub mod modes;
pub mod row;
pub mod search;
pub mod table;
