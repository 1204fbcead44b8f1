use game_smith::command_runs::{CommandRunView, Model};
use game_smith::linux;
use game_smith::status::CommandStatus;
use game_smith::steamcmd::{SteamCmd, SteamCmdError, HLDS_APP_ID};
use game_smith::windows;

fn run(id: i32, command: &str, status: CommandStatus) -> Model {
    Model {
        id,
        command: command.to_string(),
        args: Some(vec![]),
        working_dir: None,
        log_path: None,
        status: status.as_str().to_string(),
        exit_code: None,
        server_id: None,
        log_removed: false,
        pid: None,
        title: None,
    }
}

#[test]
fn linux_test_prepare_boot_command() {
    let (cmd, args) = linux::prepare_boot_command("/opt/cs2", "./srcds_run -game csgo")
        .expect("failed to prepare boot command");
    assert_eq!(cmd, "/bin/sh");
    assert_eq!(args, ["-c", "./srcds_run -game csgo"]);
}

#[test]
fn test_build_update_app_args() {
    let args = SteamCmd::build_update_app_args(740, "/opt/games/counter-strike");

    assert_eq!(args.len(), 6);
    assert_eq!(args[0], "+force_install_dir");
    assert_eq!(args[1], "/opt/games/counter-strike");
    assert_eq!(args[2], "+app_update");
    assert_eq!(args[3], "740");
    assert_eq!(args[4], "+validate");
    assert_eq!(args[5], "+quit");
}

#[test]
fn test_build_update_app_args_hlds() {
    let args = SteamCmd::build_update_app_args(HLDS_APP_ID, "/opt/games/hlds");

    assert_eq!(args[3], "90");
}

#[test]
fn test_missing_deps_error_display() {
    let err = SteamCmdError::MissingDependencies(
        "error while loading shared libraries: libstdc++.so.6".to_string(),
    );
    let msg = err.message();
    assert!(msg.contains("failed to start"));
    assert!(msg.contains("libstdc++"));
}

#[test]
fn windows_term_signal_is_zero_on_windows() {
    assert_eq!(windows::TERM_SIGNAL, 0);
}

#[test]
fn game_servers_term_signal_is_zero_on_windows() {
    assert_eq!(windows::TERM_SIGNAL, 0);
}

#[test]
fn game_servers_term_signal_is_sigterm() {
    assert_eq!(linux::TERM_SIGNAL, libc::SIGTERM);
}

#[test]
fn linux_term_signal_is_sigterm() {
    assert_eq!(linux::TERM_SIGNAL, libc::SIGTERM);
}

#[test]
fn command_run_view_exposes_is_running_true() {
    let model = run(1, "test", CommandStatus::Running);
    let view = CommandRunView::new(&model);
    assert!(view.is_running);
}

#[test]
fn command_run_view_exposes_is_running_false() {
    let mut model = run(2, "test", CommandStatus::Completed);
    model.exit_code = Some(0);
    let view = CommandRunView::new(&model);
    assert!(!view.is_running);
}

#[test]
fn command_run_view_flattens_model_fields() {
    let mut model = run(42, "steamcmd_install", CommandStatus::Running);
    model.args = Some(vec![Some("+quit".to_string())]);
    model.working_dir = Some("/tmp".to_string());
    model.server_id = Some(1);
    model.pid = Some(1234);
    model.title = Some("Install".to_string());
    let view = CommandRunView::new(&model);
    assert_eq!(view.inner.id, 42);
    assert_eq!(view.inner.command, "steamcmd_install");
    assert_eq!(view.inner.server_id, Some(1));
    assert_eq!(view.inner.pid, Some(1234));
    assert_eq!(view.inner.title, Some("Install".to_string()));
}
