//! p2p_app: the decision and formatting core of a peer-to-peer chat
//! application (broadcast chat, direct messages, peer nicknames, groups),
//! with contracts checked by Verus.

pub mod tab;
pub mod text;
pub mod map;
pub mod fmt;
pub mod presentation;
pub mod logging;
pub mod visibility;
pub mod network;
pub mod nickname;
pub mod mobile_api;
pub mod api;
pub mod groups;
pub mod group_crypto;
pub mod tui;
pub mod mobile_node;
pub mod swarm_handler;
pub mod db;
pub mod connected;
pub mod chat_view;
