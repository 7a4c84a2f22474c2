//! Game server logic: the wire formats, the lobby and game rules, and the
//! routing decisions of the peers, chats and game handler.
pub mod battle_engine;
pub mod chat;
pub mod city_board;
pub mod game;
pub mod gamehandler;
pub mod link;
pub mod peer;
pub mod player_ids;
pub mod registry;
pub mod relay;
pub mod utilities;
