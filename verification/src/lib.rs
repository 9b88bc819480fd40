pub mod card_deck;
pub mod config;
pub mod game_logic;
pub mod hand;
pub mod player;
pub mod stats;
pub mod strategy;
pub mod utils;
