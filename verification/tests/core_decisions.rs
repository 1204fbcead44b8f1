use game_smith::steamcmd_linux::{
    deps_install_step, glibc_needs_workaround, profile_target, shell_env_plan, DepsNext, ProfileFile,
};
use game_smith::steamcmd::UpdateNext;
use game_smith::command_runs::{dead_pid_label, should_mark_failed, CommandRun, Model as RunModel};
use game_smith::dirs::{data_home_from, db_file_path, db_location_mismatch, join_path, AppDirs};
use game_smith::errors::{html_escape, LogLevel, StandardError};
use game_smith::game_servers::Model as ServerModel;
use game_smith::installer::{pick_first, GameServerInstaller};
use game_smith::linux;
use game_smith::log_stream::{LogEvent, LogNext, LogStream, Lookup, StreamPhase};
use game_smith::process::{pids_to_signal, TermAction, Terminator};
use game_smith::status::{CommandStatus, ServerStatus};
use game_smith::steamcmd::{tera_steamcmd_health, IoErrorKind, IoFailure, SteamCmd, SteamCmdError, SteamCmdHealthStatus};
use game_smith::steamcmd_linux::{
    deps_attempt_note, deps_command_result, deps_installed_note, distro_from_os_release,
    package_manager_list, find_32bit_libgcc, ld_preload_export_line,
    missing_dependencies_details, missing_libraries, needs_ld_preload, parse_glibc_version,
    profile_snippet, truncate, DepsError, SpawnOutcome,
};
use game_smith::windows;

fn run(id: i32, status: &str, pid: Option<i64>) -> RunModel {
    RunModel {
        id,
        command: "steamcmd".to_string(),
        args: Some(vec![Some("+login".to_string()), None, Some("anonymous".to_string())]),
        working_dir: None,
        log_path: Some("/tmp/run.log".to_string()),
        status: status.to_string(),
        exit_code: Some(2),
        server_id: Some(1),
        log_removed: false,
        pid,
        title: None,
    }
}

fn server(status: &str, boot_script: Option<&str>) -> ServerModel {
    ServerModel {
        id: 4,
        app_id: 740,
        name: "CS2".to_string(),
        install_dir: "/srv/cs2".to_string(),
        platform: "linux".to_string(),
        status: status.to_string(),
        boot_script: boot_script.map(str::to_string),
        auto_start: false,
        auto_restart: false,
        auto_update: false,
        update_on_start: false,
        restart_schedule: None,
        last_error: None,
        server_mod: None,
        beta_branch: None,
        use_steam_login: true,
        template_id: None,
    }
}

#[test]
fn statuses_read_back_and_unknown_text_defaults() {
    for st in [
        ServerStatus::Pending,
        ServerStatus::Installing,
        ServerStatus::Installed,
        ServerStatus::Running,
        ServerStatus::Stopped,
        ServerStatus::Error,
    ] {
        assert_eq!(ServerStatus::parse(st.as_str()), st);
    }
    assert_eq!(ServerStatus::parse("RUNNING"), ServerStatus::Pending);
    for st in [CommandStatus::Running, CommandStatus::Completed, CommandStatus::Failed] {
        assert_eq!(CommandStatus::parse(st.as_str()), st);
    }
    assert_eq!(CommandStatus::parse("stopped"), CommandStatus::Running);
}

#[test]
fn command_runs_keep_their_string_arguments() {
    let r = CommandRun::from_model(&run(3, "failed", None));
    assert_eq!(r.args, vec!["+login".to_string(), "anonymous".to_string()]);
    assert_eq!(r.status, "failed");
    assert_eq!(r.exit_code, Some(2));
    let mut m = run(3, "failed", None);
    m.args = None;
    assert!(CommandRun::from_model(&m).args.is_empty());
}

#[test]
fn liveness_sweep_decisions() {
    assert!(should_mark_failed(None, true));
    assert!(should_mark_failed(Some(5), false));
    assert!(!should_mark_failed(Some(5), true));
    assert_eq!(dead_pid_label(None), "no PID");
    assert_eq!(dead_pid_label(Some(-12)), "dead PID -12");
    assert!(run(1, "running", Some(9)).is_live(true));
    assert!(!run(1, "running", Some(9)).is_live(false));
    assert!(run(1, "running", None).is_live(false));
    assert!(!run(1, "completed", None).is_live(true));
}

#[test]
fn directories_and_database_uri() {
    let d = AppDirs::new("/home/me/.local/share".to_string());
    assert_eq!(d.app_dir, "/home/me/.local/share/game-smith");
    assert_eq!(d.logs_dir, "/home/me/.local/share/game-smith/logs");
    assert_eq!(d.db_path, "/home/me/.local/share/game-smith/game-smith.sqlite");
    assert_eq!(d.db_uri(), "sqlite:///home/me/.local/share/game-smith/game-smith.sqlite?mode=rwc");
    assert_eq!(db_file_path(&d.db_uri()), d.db_path);
    assert_eq!(db_file_path("other.db"), "other.db");
    assert!(!db_location_mismatch("", "/x"));
    assert!(db_location_mismatch("/y", "/x"));
    assert!(!db_location_mismatch("/x", "/x"));
    assert_eq!(data_home_from(Some("/xdg".to_string()), Some("/h".to_string())), "/xdg");
    assert_eq!(data_home_from(None, Some("/h".to_string())), "/h/.local/share");
    assert_eq!(data_home_from(None, None), "/.local/share");
    assert_eq!(join_path("/a/", "b"), "/a/b");
}

#[test]
fn error_pages_escape_their_text() {
    assert_eq!(html_escape("<b>\"A&B\"</b>"), "&lt;b&gt;&quot;A&amp;B&quot;&lt;/b&gt;");
    let e = StandardError::NotFound("Game server <1> not found".to_string());
    let (code, title, detail) = e.page_parts();
    assert_eq!(code, 404);
    assert_eq!(title, "Not Found");
    assert_eq!(detail, "Game server &lt;1&gt; not found");
    assert_eq!(e.message(), "Not Found: Game server <1> not found");
    assert_eq!(e.log_level(), LogLevel::Warn);
    assert_eq!(StandardError::InternalServerError("x".to_string()).status_code(), 500);
    assert_eq!(StandardError::InternalServerError("x".to_string()).log_level(), LogLevel::Error);
    assert_eq!(StandardError::BadRequest("x".to_string()).status_code(), 400);
    assert_eq!(StandardError::Unauthorized("x".to_string()).status_code(), 401);
}

#[test]
fn log_stream_follows_a_run_until_it_ends() {
    let mut s = LogStream::new(7);
    let step = s.on_lookup(Lookup::Found(run(7, "running", None)));
    assert!(step.emit.is_none());
    assert!(step.next == LogNext::ReadTail(0));
    let step = s.on_tail(Some("héllo".to_string()));
    match step.emit {
        Some(LogEvent::Log { data, bytes }) => {
            assert_eq!(data, "héllo");
            assert_eq!(bytes, 6);
        }
        _ => panic!("expected a log event"),
    }
    assert!(step.next == LogNext::CheckRun);
    let step = s.on_check(Lookup::Found(run(7, "running", None)));
    assert!(step.next == LogNext::SleepThenReadTail(6));
    let step = s.on_tail(None);
    assert!(step.emit.is_none());
    let step = s.on_check(Lookup::Found(run(7, "completed", None)));
    match step.emit {
        Some(LogEvent::Status { status, exit_code }) => {
            assert_eq!(status, "completed");
            assert_eq!(exit_code, Some(2));
        }
        _ => panic!("expected a status event"),
    }
    assert!(step.next == LogNext::Stop);
    assert!(s.phase == StreamPhase::Done);
}

#[test]
fn log_stream_reports_missing_runs() {
    let mut s = LogStream::new(1);
    match s.on_lookup(Lookup::Missing).emit {
        Some(LogEvent::Error(m)) => assert_eq!(m, "Run not found"),
        _ => panic!("expected an error event"),
    }
    let mut s = LogStream::new(1);
    match s.on_lookup(Lookup::Failed).emit {
        Some(LogEvent::Error(m)) => assert_eq!(m, "Failed to look up run"),
        _ => panic!("expected an error event"),
    }
}

#[test]
fn linux_stops_process_groups_then_single_pids() {
    let runs = vec![run(1, "running", None), run(2, "running", Some(40)), run(3, "running", Some(41))];
    assert_eq!(pids_to_signal(&runs), vec![40, 41]);
    let (mut t, a) = linux::terminate_processes(&runs);
    assert_eq!(a, TermAction::CheckAlive(40));
    assert_eq!(t.on_alive(true), TermAction::SignalGroup(40));
    assert_eq!(t.on_group_signal(-1), TermAction::SignalPid(40));
    assert_eq!(t.on_pid_signal(), TermAction::CheckAlive(41));
    assert_eq!(t.on_alive(true), TermAction::SignalGroup(41));
    assert_eq!(t.on_group_signal(0), TermAction::Done);
}

#[test]
fn windows_stops_single_pids_and_skips_dead_ones() {
    let runs = vec![run(1, "running", Some(7)), run(2, "running", Some(8))];
    let (mut t, a) = windows::terminate_processes(&runs);
    assert_eq!(a, TermAction::CheckAlive(7));
    assert_eq!(t.on_alive(false), TermAction::CheckAlive(8));
    assert_eq!(t.on_alive(true), TermAction::SignalPid(8));
    assert_eq!(t.on_pid_signal(), TermAction::Done);
    let (_, a) = Terminator::new(vec![None, None], true);
    assert_eq!(a, TermAction::Done);
}

#[test]
fn windows_boot_scripts_run_through_a_batch_file() {
    assert_eq!(windows::batch_file_path("C:\\games"), "C:\\games/game-smith-start.bat");
    assert_eq!(
        windows::batch_file_content("start /B server.exe -port 27015\r\necho done"),
        "@echo off\r\nstart /B server.exe -port 27015\r\necho done"
    );
    let (cmd, args) = windows::batch_command("x.bat");
    assert_eq!(cmd, "cmd.exe");
    assert_eq!(args, vec!["/C".to_string(), "x.bat".to_string()]);
}

#[test]
fn no_executable_is_found_in_a_missing_directory() {
    assert_eq!(linux::find_server_executable("/nonexistent/game-smith/dir"), None);
    assert_eq!(windows::find_server_executable("/nonexistent/game-smith/dir"), None);
    assert_eq!(GameServerInstaller::find_server_executable("/nonexistent/game-smith/dir"), None);
}

#[test]
fn install_and_start_plans() {
    let s = server("installed", None);
    let plan = GameServerInstaller::install_plan(&s, Some("me"), Some("pw"), "/sc/steamcmd.sh", "/sc");
    assert_eq!(plan.script_path, "/srv/cs2/install_740.txt");
    assert!(plan.script.contains("login me pw"));
    assert_eq!(plan.launch.command, "/sc/steamcmd.sh");
    assert_eq!(plan.launch.args, vec!["+runscript".to_string(), "/srv/cs2/install_740.txt".to_string()]);
    assert_eq!(plan.launch.title.as_deref(), Some("Install 740: CS2"));
    let mut anon = server("installed", None);
    anon.use_steam_login = false;
    let plan = GameServerInstaller::update_plan(&anon, Some("me"), Some("pw"), "/sc/steamcmd.sh", "/sc");
    assert!(plan.script.contains("login anonymous"));
    assert_eq!(plan.launch.title.as_deref(), Some("Update 740: CS2"));

    let p = GameServerInstaller::start_plan(&server("stopped", Some("./run.sh")), None).ok().unwrap();
    assert_eq!(p.command, "/bin/sh");
    assert_eq!(p.args, vec!["-c".to_string(), "./run.sh".to_string()]);
    assert_eq!(p.title.as_deref(), Some("Start CS2"));
    let p = GameServerInstaller::start_plan(&server("stopped", None), Some("/srv/cs2/srcds_run".to_string()))
        .ok()
        .unwrap();
    assert_eq!(p.command, "/srv/cs2/srcds_run");
    assert!(p.args.is_empty());
    assert_eq!(
        GameServerInstaller::start_plan(&server("stopped", None), None).err().unwrap(),
        "no boot script configured and no server executable found"
    );
    assert!(GameServerInstaller::should_start(&server("stopped", None), false));
    assert!(!GameServerInstaller::should_start(&server("stopped", None), true));
    assert!(!GameServerInstaller::should_start(&server("installing", None), false));
}

#[test]
fn steamcmd_paths_health_and_outcomes() {
    let dirs = AppDirs::new("/data".to_string());
    let sc = SteamCmd::new(&dirs);
    assert_eq!(sc.steamcmd_dir(), "/data/game-smith/steamcmd");
    assert_eq!(sc.binary_path(), "/data/game-smith/steamcmd/steamcmd.sh");
    assert!(!sc.is_installed());
    assert_eq!(SteamCmd::update_app_runs(90), 5);
    assert_eq!(SteamCmd::update_app_runs(740), 1);
    assert_eq!(tera_steamcmd_health(None), "checking");
    assert_eq!(tera_steamcmd_health(Some(SteamCmdHealthStatus::Broken("x".to_string()))), "broken");
    assert_eq!(SteamCmdHealthStatus::NotInstalled.as_str(), "not_installed");
    assert_eq!(SteamCmdHealthStatus::Healthy.as_str(), "healthy");
    assert!(SteamCmd::deps_outcome(Ok((true, String::new()))).is_ok());
    match SteamCmd::command_outcome(false, None) {
        Err(e) => assert_eq!(e.message(), "SteamCMD exited with status -1"),
        Ok(()) => panic!("a failure passed"),
    }
    assert_eq!(SteamCmd::capture_outcome(true, Some(0), "out".to_string()).ok(), Some("out".to_string()));
    match SteamCmd::extraction_outcome(false) {
        Err(SteamCmdError::Extract(m)) => assert_eq!(m, "binary not found after extraction"),
        _ => panic!("expected an extraction error"),
    }
    assert_eq!(
        SteamCmdError::Io(IoFailure { kind: IoErrorKind::Other, message: "disk".to_string() }).message(),
        "I/O error: disk"
    );
    match SteamCmd::binary_not_found() {
        SteamCmdError::Io(f) => {
            assert_eq!(f.kind, IoErrorKind::NotFound);
            assert_eq!(f.message, "steamcmd binary not found");
        }
        _ => panic!("expected an I/O error"),
    }
    match SteamCmd::not_installed() {
        SteamCmdError::Spawn(f) => {
            assert_eq!(f.kind, IoErrorKind::NotFound);
            assert_eq!(f.message, "steamcmd is not installed");
        }
        _ => panic!("expected a spawn error"),
    }
    let spawn = IoFailure { kind: IoErrorKind::Other, message: "denied".to_string() };
    match SteamCmd::deps_outcome(Err(spawn)) {
        Err(SteamCmdError::Spawn(f)) => assert_eq!(f.message, "denied"),
        _ => panic!("expected a spawn error"),
    }
    assert_eq!(SteamCmdError::Download("dns".to_string()).message(), "failed to download SteamCMD: dns");
}

#[test]
fn distributions_are_recognised_from_os_release() {
    let d = distro_from_os_release("NAME=\"Ubuntu\"\nID=ubuntu\nID_LIKE=debian\n").unwrap();
    assert_eq!(d.label, "Debian / Ubuntu");
    let d = distro_from_os_release("ID=\"cachyos\"\nID_LIKE=\"arch\"").unwrap();
    assert_eq!(d.label, "Arch Linux / CachyOS");
    let d = distro_from_os_release("ID=fedora").unwrap();
    assert_eq!(d.install_command, "sudo dnf install -y glibc.i686 libstdc++.i686");
    assert!(distro_from_os_release("ID=gentoo").is_none());
}

#[test]
fn missing_libraries_are_listed_from_ldd() {
    let out = "\tlibstdc++.so.6 => not found\n\tlibc.so.6 => /lib/libc.so.6 (0x1)\n\tlibgcc_s.so.1 => not found\n";
    let missing = missing_libraries(out);
    assert_eq!(missing, vec!["libstdc++.so.6".to_string(), "libgcc_s.so.1".to_string()]);
    assert_eq!(
        missing_dependencies_details(&missing, "  oops \n"),
        "2 32-bit shared library(ies) not found: libstdc++.so.6, libgcc_s.so.1\noops"
    );
}

#[test]
fn glibc_workaround_decisions() {
    assert_eq!(parse_glibc_version("ldd (GNU libc) 2.43\nCopyright"), Some((2, 43)));
    assert_eq!(parse_glibc_version("ldd (GNU libc) 2.x"), None);
    assert_eq!(parse_glibc_version(""), None);
    assert!(needs_ld_preload((2, 38)));
    assert!(!needs_ld_preload((2, 37)));
    assert!(needs_ld_preload((3, 0)));
    let ldconfig = "\tlibgcc_s.so.1 (libc6,x86-64) => /lib64/libgcc_s.so.1\n\tlibgcc_s.so.1 (libc6) => /lib32/libgcc_s.so.1\n";
    assert_eq!(find_32bit_libgcc(ldconfig), Some("/lib32/libgcc_s.so.1".to_string()));
    assert_eq!(find_32bit_libgcc("nothing here"), None);
    let line = ld_preload_export_line("/lib32/libgcc_s.so.1");
    assert_eq!(line, "export LD_PRELOAD=/lib32/libgcc_s.so.1");
    assert_eq!(profile_snippet(&line), "\n# SteamCMD glibc workaround\nexport LD_PRELOAD=/lib32/libgcc_s.so.1\n");
}

#[test]
fn dependency_install_errors() {
    assert_eq!(truncate("abcdef", 3), "abc...");
    assert_eq!(truncate("abc", 3), "abc");
    match deps_command_result("apt-get", SpawnOutcome::NotFound) {
        Err(e) => assert_eq!(e.message(), "Command \"apt-get\" not found on this system"),
        Ok(()) => panic!("a missing command passed"),
    }
    match deps_command_result("dnf", SpawnOutcome::Exited { success: false, stdout: "o".to_string(), stderr: "e".to_string() }) {
        Err(DepsError::InstallFailed { cmd, stdout, stderr }) => {
            assert_eq!(cmd, "dnf");
            assert_eq!(stdout, "o");
            assert_eq!(stderr, "e");
        }
        _ => panic!("expected a failed install"),
    }
    assert!(deps_command_result("dnf", SpawnOutcome::Exited { success: true, stdout: String::new(), stderr: String::new() }).is_ok());
}

#[test]
fn the_first_existing_candidate_wins() {
    let names = vec!["srcds_run".to_string(), "srcds".to_string(), "server".to_string()];
    assert_eq!(pick_first("/srv/x", &names, &vec![false, true]), Some("/srv/x/srcds".to_string()));
    assert_eq!(pick_first("/srv/x", &names, &vec![true, true, true]), Some("/srv/x/srcds_run".to_string()));
    assert_eq!(pick_first("/srv/x", &names, &vec![false, false, false]), None);
    assert_eq!(pick_first("/srv/x", &names, &vec![]), None);
}

#[test]
fn steamcmd_runs_with_the_hinted_preload() {
    let dirs = AppDirs::new("/data".to_string());
    let plain = SteamCmd::new(&dirs);
    assert_eq!(plain.ld_preload_hint_path(), "/data/game-smith/steamcmd/.ld_preload");
    assert!(plain.preload_env().is_none());
    let hinted = SteamCmd::with_hint(&dirs, Some("/usr/lib32/libgcc_s.so.1\n".to_string()));
    assert_eq!(hinted.binary_path(), "/data/game-smith/steamcmd/steamcmd.sh");
    assert_eq!(
        hinted.preload_env(),
        Some(("LD_PRELOAD".to_string(), "/usr/lib32/libgcc_s.so.1".to_string()))
    );
    assert!(SteamCmd::with_hint(&dirs, Some("  \n".to_string())).preload_env().is_none());
    assert!(SteamCmd::with_hint(&dirs, None).preload_env().is_none());
}

#[test]
fn dependency_attempts_are_logged_with_their_command() {
    let managers = package_manager_list();
    assert_eq!(
        deps_attempt_note(&managers[1]),
        "Attempting: apt-get install -y lib32gcc-s1"
    );
    assert_eq!(deps_installed_note("dnf"), "Dependencies installed successfully via dnf");
}

#[test]
fn stopping_runs_signals_each_live_pid_in_run_order() {
    let (mut t, mut action) = Terminator::new(vec![Some(10), None, Some(20), Some(30)], true);
    let mut seen = vec![copy_action(&action)];
    while action != TermAction::Done {
        action = match action {
            TermAction::CheckAlive(p) => t.on_alive(p != 20),
            TermAction::SignalGroup(p) => t.on_group_signal(if p == 30 { -1 } else { 0 }),
            TermAction::SignalPid(_) => t.on_pid_signal(),
            TermAction::Done => TermAction::Done,
        };
        seen.push(copy_action(&action));
    }
    assert_eq!(
        seen,
        vec![
            TermAction::CheckAlive(10),
            TermAction::SignalGroup(10),
            TermAction::CheckAlive(20),
            TermAction::CheckAlive(30),
            TermAction::SignalGroup(30),
            TermAction::SignalPid(30),
            TermAction::Done,
        ]
    );
}

fn copy_action(a: &TermAction) -> TermAction {
    match a {
        TermAction::CheckAlive(p) => TermAction::CheckAlive(*p),
        TermAction::SignalGroup(p) => TermAction::SignalGroup(*p),
        TermAction::SignalPid(p) => TermAction::SignalPid(*p),
        TermAction::Done => TermAction::Done,
    }
}

#[test]
fn hlds_updates_run_five_times_and_stop_at_a_failure() {
    assert!(matches!(SteamCmd::update_app_step(90, 1, Ok(())), UpdateNext::RunAgain));
    assert!(matches!(SteamCmd::update_app_step(90, 4, Ok(())), UpdateNext::RunAgain));
    assert!(matches!(SteamCmd::update_app_step(90, 5, Ok(())), UpdateNext::Done));
    assert!(matches!(SteamCmd::update_app_step(740, 1, Ok(())), UpdateNext::Done));
    assert!(matches!(
        SteamCmd::update_app_step(90, 2, Err(SteamCmdError::ExitStatus(8))),
        UpdateNext::Failed(SteamCmdError::ExitStatus(8))
    ));
}

#[test]
fn the_glibc_workaround_is_planned_from_what_was_observed() {
    let ldd = "ldd (GNU libc) 2.39\nCopyright";
    let ldconfig = "\tlibgcc_s.so.1 (libc6,x86-64) => /usr/lib/libgcc_s.so.1\n\tlibgcc_s.so.1 (libc6) => /usr/lib32/libgcc_s.so.1\n";
    assert!(glibc_needs_workaround(Some(ldd)));
    assert!(!glibc_needs_workaround(Some("ldd (GNU libc) 2.35")));
    assert!(!glibc_needs_workaround(None));
    assert_eq!(profile_target(true, true, true), Some(ProfileFile::Bashrc));
    assert_eq!(profile_target(true, false, true), Some(ProfileFile::Profile));
    assert_eq!(profile_target(true, false, false), None);
    assert_eq!(profile_target(false, true, true), None);
    let plan = shell_env_plan(Some(ldd), Some(ldconfig), Some(ProfileFile::Bashrc), Some("alias ll=ls\n"));
    assert_eq!(plan.library.as_deref(), Some("/usr/lib32/libgcc_s.so.1"));
    let (file, text) = plan.profile_append.unwrap();
    assert_eq!(file, ProfileFile::Bashrc);
    assert_eq!(text, "\n# SteamCMD glibc workaround\nexport LD_PRELOAD=/usr/lib32/libgcc_s.so.1\n");
    let again = shell_env_plan(
        Some(ldd),
        Some(ldconfig),
        Some(ProfileFile::Bashrc),
        Some("x\nexport LD_PRELOAD=/usr/lib32/libgcc_s.so.1\n"),
    );
    assert!(again.library.is_some());
    assert!(again.profile_append.is_none());
    let old = shell_env_plan(Some("ldd (GNU libc) 2.31"), Some(ldconfig), Some(ProfileFile::Bashrc), None);
    assert!(old.library.is_none() && old.profile_append.is_none());
    let no_profile = shell_env_plan(Some(ldd), Some(ldconfig), None, None);
    assert!(no_profile.library.is_some() && no_profile.profile_append.is_none());
}

#[test]
fn dependency_installation_stops_at_the_first_present_manager() {
    let managers = package_manager_list();
    let missing = |c: &str| Err(DepsError::NotFound { cmd: c.to_string() });
    assert!(matches!(deps_install_step(&managers, 0, missing("pacman")), DepsNext::Try(1)));
    let failed = Err(DepsError::InstallFailed { cmd: "apt-get".to_string(), stdout: String::new(), stderr: "locked".to_string() });
    match deps_install_step(&managers, 1, failed) {
        DepsNext::GaveUp(m) => assert_eq!(m, "Command \"apt-get\" failed.\nstderr: locked"),
        _ => panic!("expected giving up"),
    }
    match deps_install_step(&managers, 3, missing("yum")) {
        DepsNext::GaveUp(m) => assert_eq!(m, "No package manager found or all failed"),
        _ => panic!("expected giving up"),
    }
    match deps_install_step(&managers, 2, Ok(())) {
        DepsNext::Installed(n) => assert_eq!(n, "dnf"),
        _ => panic!("expected installed"),
    }
}
