//! Lifecycle management for the BYOND runtime: version probing, installer
//! acquisition, installation checks, launching and liveness tracking, and a
//! best-effort Discord presence channel.
//!
//! Every function here decides or computes; the process, network, registry and
//! IPC calls are made by the caller, which hands their outcomes in as plain
//! values.
pub mod download;
pub mod install;
pub mod presence;
pub mod process;
pub mod text;
pub mod version;

pub use text::{decimal, decimal_text};
pub use version::{
    dd_executable_path, get_byond_version, join_path_text, parse_byond_version, ByondVersion,
    ProbeOutcome,
};
pub use download::{
    backup_url, check_response_status, download_byond_installer, finish_backup_download,
    installer_filename, primary_url, DownloadResult, DownloadStep,
};
pub use install::{
    default_install_dir, default_launcher_path, install_byond, registry_key_path, InstallResult,
    InstallerRun,
};
pub use process::{
    dreamseeker_path, find_dreamseeker_process, is_dreamseeker_running, launch_dreamseeker,
    ManagedProcess, PollStatus, SpawnOutcome,
};
pub use presence::{
    cleanup_discord_rpc, create_activity_payload, get_current_timestamp, init_discord_rpc,
    set_in_game_activity, set_launcher_activity, ActivityPayload, Link, PresenceAction,
    PresenceChannel, Stage,
};
