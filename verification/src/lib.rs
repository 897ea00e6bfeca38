pub mod actions;
pub mod bot_command_handlers;
pub mod bot_command_helpers;
pub mod button_bot;
pub mod calendar;
pub mod campusdual_fetcher;
mod chance;
pub mod constants;
pub mod data_backend;
pub mod data_types;
pub mod db_operations;
pub mod laws;
pub mod lines;
pub mod markdown;
pub mod ordered;
pub mod shared_main;
pub mod task_scheduler_funcs;
pub mod text;

