pub mod text;
pub mod tui;
pub mod main_proc;
pub mod errors;
pub mod id;
pub mod time_stamp;
pub mod config_manager;
pub mod crypto;
pub mod recovery_signal;
pub mod socket_utils;
pub mod update_rss;
pub mod cloud_manager;
pub mod login_with_qrcode;
pub mod output_tools;
pub mod cli_tools;
