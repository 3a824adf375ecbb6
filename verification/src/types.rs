//! The application-defined leaf types of the command API surface: each one
//! provides its custom leaf descriptor and its wire encoding.

pub mod account;
pub mod chat;
pub mod contact;
pub mod message;
pub mod provider_info;
