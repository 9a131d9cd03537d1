//! The bridge's settings.
use vstd::prelude::*;

verus! {

/// Factorio-Telegram bridge settings.
pub struct Config {
    /// Path of state file that contains data shared between restarts
    pub state_file_path: String,
    /// Telegram bot token
    pub telegram_token: String,
    /// Telegram chat id
    pub telegram_chat_id: i64,
    /// Factorio RCON host
    pub factorio_rcon_host: String,
    /// Factorio RCON password
    pub factorio_rcon_password: String,
    /// Factorio console log file
    pub factorio_log_file: Option<String>,
    /// Factorio Kubernetes Namespace
    pub factorio_kube_namespace: Option<String>,
    /// Factorio Kubernetes pod label filter
    pub factorio_kube_labels: Option<String>,
    /// Use Experimental factorio version
    pub experimental: bool,
    /// If set, the bridge will check for new Factorio Friday Facts and send them to the chat.
    pub fff: bool,
    /// Retry connection if app crashed or server is down
    pub retry: bool,
}

} // verus!
