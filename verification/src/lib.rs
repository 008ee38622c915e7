//! Core logic of an osu! Discord bot: reading beatmap links, ranking a
//! play against a player's best plays, and writing the texts of the
//! bot's replies.
pub mod resource_handler;
pub mod text;
pub mod strings;
pub mod utils;
pub mod embeds;
pub mod commands;
