//! The bot whose messages carry buttons for today, tomorrow and the day after. It knows its canteens
//! by heart, and takes the buttons away from a message once a newer one has them.
pub mod data_types;
pub mod db_operations;
pub mod handlers;
pub mod scheduler;
pub mod stuwe_parser;
