//! Verified core of a Fantasy Premier League client and Discord bot: validated
//! identifiers, request URLs, and the aggregation and formatting logic behind
//! the bot's commands and images.
pub mod autocompletes;
pub mod commands;
pub mod groups;
pub mod images;
pub mod requests;
pub mod responses;
pub mod sorting;
pub mod text;
pub mod types;
