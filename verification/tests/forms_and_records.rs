use game_smith::installer::{GameServerError, GameServerInstaller, STOPPED_EXIT_CODE};
use game_smith::steamcmd_linux::profile_addition;
use game_smith::boot::{auto_start_tally, running_servers, AutoStartOutcome};
use game_smith::command_runs::{CommandRunsValidator, Model as RunModel};
use game_smith::errors::StandardError;
use game_smith::forms::{
    autostart_toggle_message, check_server_form, check_steam_config, ensure_stopped, form_echo_model,
    form_flag, steam_login_to_save, CreateServerForm,
};
use game_smith::game_servers::{GameServerView, Model};
use game_smith::status::{CommandStatus, ServerStatus};

fn bad_request_text(e: StandardError) -> String {
    match e {
        StandardError::BadRequest(m) => m,
        _ => panic!("expected a bad request"),
    }
}

#[test]
fn server_forms_are_checked_in_order() {
    assert_eq!(bad_request_text(check_server_form("cs2", "x").err().unwrap()), "Invalid App ID");
    assert_eq!(bad_request_text(check_server_form("-1", "x").err().unwrap()), "Invalid App ID");
    assert_eq!(bad_request_text(check_server_form("4294967296", "x").err().unwrap()), "Invalid App ID");
    assert_eq!(bad_request_text(check_server_form("0", "").err().unwrap()), "App ID cannot be zero");
    assert_eq!(bad_request_text(check_server_form("740", " \t").err().unwrap()), "Name cannot be empty");
    let (id, name) = check_server_form("+740", "  CS2 Server ").ok().unwrap();
    assert_eq!(id, 740);
    assert_eq!(name, "CS2 Server");
}

#[test]
fn steam_logins_are_saved_only_when_complete() {
    let some = |s: &str| Some(s.to_string());
    assert_eq!(
        steam_login_to_save(true, some("  gaben "), some(" pw ")),
        Some(("gaben".to_string(), " pw ".to_string()))
    );
    assert_eq!(steam_login_to_save(false, some("gaben"), some("pw")), None);
    assert_eq!(steam_login_to_save(true, some("   "), some("pw")), None);
    assert_eq!(steam_login_to_save(true, some("gaben"), some("  ")), None);
    assert_eq!(steam_login_to_save(true, None, some("pw")), None);
}

fn create_form(name: &str) -> CreateServerForm {
    CreateServerForm {
        app_id: "740".to_string(),
        name: name.to_string(),
        server_mod: Some("czero".to_string()),
        beta_branch: None,
        steam_username: None,
        steam_password: None,
        use_steam_login: true,
        template_id: Some(9),
    }
}

#[test]
fn refused_forms_are_shown_again_with_their_values() {
    let m = form_echo_model(740, &create_form("My Server"), "/home/me").ok().unwrap();
    assert_eq!(m.id, 0);
    assert_eq!(m.app_id, 740);
    assert_eq!(m.install_dir, "/home/me/game-smith/games/my-server");
    assert_eq!(m.server_mod.as_deref(), Some("czero"));
    assert!(m.use_steam_login);
    assert_eq!(m.template_id, Some(9));
    assert_eq!(m.status, "");
    let e = form_echo_model(3_000_000_000, &create_form("x"), "/").err().unwrap();
    assert_eq!(bad_request_text(e), "App ID out of range");
}

#[test]
fn settings_are_locked_while_running() {
    assert!(ensure_stopped(false).is_ok());
    assert_eq!(
        bad_request_text(ensure_stopped(true).err().unwrap()),
        "Cannot update settings while server is running. Stop the server first."
    );
}

#[test]
fn checkbox_flags_are_read_from_the_body() {
    assert!(form_flag("auto_restart=true", "auto_restart"));
    assert!(form_flag("a=1&auto_start=true&b=2", "auto_start"));
    assert!(!form_flag("auto_start=false", "auto_start"));
    assert!(!form_flag("", "auto_start"));
}

#[test]
fn steam_configuration_is_trimmed_and_required() {
    assert_eq!(check_steam_config(" ", "pw").err(), Some("Steam username cannot be empty"));
    assert_eq!(check_steam_config("me", " \n").err(), Some("Steam password cannot be empty"));
    assert_eq!(
        check_steam_config(" me ", " pw ").ok(),
        Some(("me".to_string(), "pw".to_string()))
    );
}

#[test]
fn autostart_toggles_report_the_state_read_back() {
    assert_eq!(autostart_toggle_message(Ok(()), true), "Autostart enabled");
    assert_eq!(autostart_toggle_message(Ok(()), false), "Autostart disabled");
    assert_eq!(
        autostart_toggle_message(Err("no home".to_string()), false),
        "Failed to toggle autostart: no home"
    );
}

fn server(status: &str) -> Model {
    Model {
        id: 5,
        app_id: 740,
        name: "CS2".to_string(),
        install_dir: "/srv/cs2".to_string(),
        platform: "linux".to_string(),
        status: status.to_string(),
        boot_script: None,
        auto_start: false,
        auto_restart: false,
        auto_update: false,
        update_on_start: false,
        restart_schedule: None,
        last_error: Some("old".to_string()),
        server_mod: None,
        beta_branch: None,
        use_steam_login: false,
        template_id: None,
    }
}

#[test]
fn recorded_status_reads_back() {
    let mut s = server("pending");
    s.update_status(ServerStatus::Error, Some("boom".to_string()));
    assert_eq!(s.status, "error");
    assert_eq!(s.last_error.as_deref(), Some("boom"));
    assert!(s.is_error());
    s.update_status(ServerStatus::Installing, None);
    assert_eq!(s.last_error.as_deref(), Some("boom"));
    s.update_running();
    assert!(s.is_running());
    s.update_stop();
    assert_eq!(s.status(), ServerStatus::Stopped);
    assert_eq!(s.last_error.as_deref(), Some("boom"));
}

#[test]
fn boot_scripts_are_stored_sanitized() {
    let mut s = server("stopped");
    s.update_boot_script(Some("./run\r\n".to_string()));
    assert_eq!(s.boot_script.as_deref(), Some("./run\n"));
    s.update_boot_script(None);
    assert_eq!(s.boot_script, None);
}

#[test]
fn settings_replace_only_the_editable_fields() {
    let mut s = server("installed");
    s.update_settings("New".to_string(), "/srv/new".to_string(), Some("m".to_string()), None, true);
    assert_eq!(s.name, "New");
    assert_eq!(s.install_dir, "/srv/new");
    assert!(s.use_steam_login);
    assert_eq!(s.status, "installed");
    assert_eq!(s.platform, "linux");
}

#[test]
fn server_views_carry_the_status_flags() {
    let s = server("installed");
    let v = GameServerView::new(&s);
    assert!(v.is_installed && !v.is_running && !v.is_error);
    let unknown = server("weird");
    assert_eq!(unknown.status(), ServerStatus::Pending);
}

#[test]
fn finished_runs_record_status_and_exit_code() {
    let mut r = RunModel {
        id: 1,
        command: "steamcmd".to_string(),
        args: None,
        working_dir: None,
        log_path: Some("/tmp/x.log".to_string()),
        status: "running".to_string(),
        exit_code: None,
        server_id: None,
        log_removed: false,
        pid: None,
        title: None,
    };
    r.update_pid(77);
    assert_eq!(r.pid, Some(77));
    r.finish(Some(3), CommandStatus::Failed);
    assert_eq!(r.status, "failed");
    assert_eq!(r.exit_code, Some(3));
    assert!(!r.is_running());
    r.mark_log_removed();
    assert_eq!(r.log_path, None);
    assert!(r.log_removed);
}

#[test]
fn command_runs_need_a_command() {
    assert!(CommandRunsValidator { command: "ls".to_string() }.validate().is_ok());
    assert_eq!(
        CommandRunsValidator { command: String::new() }.validate().err(),
        Some("Command must not be empty.")
    );
}

#[test]
fn stopping_a_server_fails_its_running_runs() {
    let mut s = server("running");
    let mut runs = vec![
        RunModel {
            id: 1,
            command: "/bin/sh".to_string(),
            args: None,
            working_dir: None,
            log_path: None,
            status: "running".to_string(),
            exit_code: None,
            server_id: Some(5),
            log_removed: false,
            pid: Some(10),
            title: None,
        },
    ];
    GameServerInstaller::stop_records(&mut s, &mut runs);
    assert_eq!(s.status, "stopped");
    assert_eq!(s.last_error.as_deref(), Some("old"));
    assert_eq!(runs[0].status, "failed");
    assert_eq!(runs[0].exit_code, Some(STOPPED_EXIT_CODE));
    assert_eq!(runs[0].pid, Some(10));
}

#[test]
fn installer_errors_read_as_messages() {
    assert_eq!(GameServerError::SteamCmdNotInstalled.message(), "SteamCMD is not installed");
    assert_eq!(GameServerError::NotFound.message(), "game server not found");
    assert_eq!(
        GameServerError::WriteScript("disk full".to_string()).message(),
        "failed to write SteamCMD script: disk full"
    );
    assert_eq!(
        GameServerError::CreateDir("denied".to_string()).message(),
        "failed to create install directory: denied"
    );
    assert_eq!(
        GameServerError::Execute("db".to_string()).message(),
        "failed to execute installation: db"
    );
}

#[test]
fn the_glibc_workaround_is_appended_once() {
    let line = "export LD_PRELOAD=/lib32/libgcc_s.so.1";
    let added = profile_addition(Some("alias ll='ls -l'\n"), line).unwrap();
    assert_eq!(added, "\n# SteamCMD glibc workaround\nexport LD_PRELOAD=/lib32/libgcc_s.so.1\n");
    let after = format!("alias ll='ls -l'\n{added}");
    assert_eq!(profile_addition(Some(&after), line), None);
    assert!(profile_addition(None, line).is_some());
}

#[test]
fn boot_tallies_auto_starts_and_finds_running_servers() {
    let outcomes = vec![
        AutoStartOutcome::Started,
        AutoStartOutcome::Skipped,
        AutoStartOutcome::Failed,
        AutoStartOutcome::Started,
    ];
    assert_eq!(auto_start_tally(&outcomes), (2, 4));
    assert_eq!(auto_start_tally(&vec![]), (0, 0));
    let servers = vec![server("running"), server("stopped"), server("running"), server("installing")];
    assert_eq!(running_servers(&servers), vec![0, 2]);
}
