pub mod bridge;
pub mod config;
pub mod factorio;
pub mod feed_admission;
pub mod fff;
pub mod log_line;
pub mod log_reader;
pub mod state;
pub mod tasks;
pub mod telegram;
pub mod text;

pub use bridge::Signal;
pub use config::Config;
