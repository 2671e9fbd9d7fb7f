//! Apecast: the decisions and the text of a Telegram bot that follows the
//! ApeCoin ecosystem (news, governance proposals, prices and balances).
//!
//! Everything that talks to the network, to the database or to Telegram lives
//! outside this crate; this crate holds what those parts compute.
pub mod text;
pub mod etherscan;
pub mod search;
pub mod snapshot;
pub mod storage;
pub mod monitor;
pub mod exchanges;
pub mod telegram;
