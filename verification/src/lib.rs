//! Verified core of the STORM Daenerys client: the data it exchanges with the
//! STORM API, the rules that decide what the interface shows and sends, and
//! the state machine that reacts to the answers of the API.

pub mod text;
pub mod error;
pub mod acl;
pub mod group;
pub mod sort;
pub mod directory;
pub mod user;
pub mod action;
pub mod state;
pub mod message;
pub mod reply;
pub mod request;
pub mod pattern;
pub mod listing;
pub mod model;
