//! Verified core of a PSO2 private server: account and character flags,
//! name hashing, ICE archives, inventories, parties, quests and the
//! decisions of the ship and master-ship servers.

pub mod flags;
pub mod name_id;
pub mod user_state;
pub mod session;
pub mod error;
pub mod quest_type;
pub mod quests;
pub mod ice;
pub mod inventory;
pub mod party;
pub mod master;
pub mod ship_conn;
pub mod battle;
pub mod chat;
pub mod zone;
pub mod settings;
pub mod stats;
pub mod command;
pub mod chat_command;
pub mod text;
pub mod patch;
pub mod capture;
