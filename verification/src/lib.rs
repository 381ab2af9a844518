//! Domain model of the fruit gift-economy game: bags, members, communities,
//! the event/effect log and the rules that turn player actions into state
//! changes, with their storage encodings.

pub mod text;
pub mod error;
pub mod fruit;
pub mod ids;
pub mod bag;
pub mod member;
pub mod community;
pub mod event_log;
pub mod gifter;
pub mod burner;
pub mod luck_adjustments;
pub mod luck_adjuster;
pub mod luck_laws;
pub mod keys;
pub mod storage_error;
pub mod codec;
pub mod event_codec;
pub mod community_codec;
pub mod community_store;
pub mod providence;
pub mod granting;
pub mod event_log_store;
pub mod commands;
pub mod log_queries;
