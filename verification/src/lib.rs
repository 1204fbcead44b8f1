//! Verified core of the game-smith server manager.
pub mod text;
pub mod status;
pub mod game_servers;
pub mod command_runs;
pub mod log_stream;
pub mod dirs;
pub mod installer;
pub mod process;
pub mod linux;
pub mod windows;
pub mod steamcmd;
pub mod steamcmd_linux;
pub mod errors;
pub mod encryption;
pub mod templates;
pub mod forms;
pub mod shutdown;
pub mod scheduler;
pub mod desktop;
pub mod assets;
pub mod boot;
pub mod credentials;
pub mod initializers;
