//! Inventory tracking core: login sessions, their cookie encoding, the
//! authentication gate, and the compensating creation and deletion flows.

pub mod clock;
pub mod text;
pub mod search;
pub mod codec;
pub mod store;
pub mod users;
pub mod guard;
pub mod login;
pub mod error;
pub mod entities;
pub mod saga;
pub mod site;
