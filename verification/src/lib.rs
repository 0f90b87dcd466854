//! Verified logic of a small message display: text clean-up, word wrapping,
//! emoji recognition, screen layout and the polling protocol.
pub mod accents;
pub mod chars;
pub mod wrap;
pub mod emoji;
pub mod layout;
pub mod decimal;
pub mod reply;
pub mod session;
