use game_smith::assets::{asset_candidates, content_type, static_asset_path, template_name};
use game_smith::boot::{stale_migrations, App};
use game_smith::initializers::{
    CommandLogInitializer, DbValidator, EmbeddedI18n, EmbeddedStatic, SecretKeyInitializer,
    SteamCmdInstaller,
};
use game_smith::desktop::{
    appindicator_problem, boot_command, env_switch, launcher_settings, local_url, tray_outcome,
    BootCommand, DesktopConfig, DesktopManager, MenuAction, Tray,
};
use game_smith::scheduler::{
    delay_between, effective_output, every_fits, interval_until, parse_every, parse_interval,
    plan_job, CronSchedule, Instant, Interval, OutputMode,
};
use game_smith::shutdown::{
    build_status, status_of, ServerShutdownStatus, ShutdownSequence, ShutdownState, ShutdownStep,
};

#[test]
fn shutdown_reports_servers_by_id_with_their_last_status() {
    let mut st = ShutdownState::init(&[
        (7, "seven".to_string()),
        (2, "two".to_string()),
        (7, "SEVEN".to_string()),
        (5, "five".to_string()),
    ]);
    let r = st.status();
    assert!(r.shutting_down);
    let ids: Vec<i32> = r.servers.iter().map(|s| s.id).collect();
    assert_eq!(ids, vec![2, 5, 7]);
    assert_eq!(r.servers[2].name, "SEVEN");
    assert!(r.servers.iter().all(|s| matches!(s.status, ServerShutdownStatus::Pending)));

    st.set_stopping(5);
    st.set_failed(7, "still alive".to_string());
    st.set_stopped(2);
    st.set_stopped(99);
    let r = st.status();
    assert_eq!(r.servers.len(), 3);
    assert_eq!(r.servers[0].status.as_str(), "stopped");
    assert_eq!(r.servers[1].status.as_str(), "stopping");
    assert_eq!(r.servers[2].status.as_str(), "failed");
    assert_eq!(r.servers[2].error.as_deref(), Some("still alive"));
    assert_eq!(r.servers[0].error, None);

    st.mark_complete();
    let r = status_of(&Some(st));
    assert!(!r.shutting_down);
    assert_eq!(r.servers.len(), 3);
    let idle = status_of(&None);
    assert!(!idle.shutting_down && idle.servers.is_empty());
}

#[test]
fn live_status_follows_the_processes() {
    let r = build_status(&[(1, "a".to_string(), false), (2, "b".to_string(), true)]);
    assert!(r.shutting_down);
    assert_eq!(r.servers[0].status.as_str(), "stopped");
    assert_eq!(r.servers[1].status.as_str(), "stopping");
    let r = build_status(&[(1, "a".to_string(), false)]);
    assert!(!r.shutting_down);
    assert!(!build_status(&[]).shutting_down);
}

#[test]
fn shutdown_sequence_stops_live_servers_then_waits_for_them() {
    let (mut seq, step) = ShutdownSequence::new(2);
    assert_eq!(step, ShutdownStep::Wait(1000));
    assert_eq!(seq.on_waited(), ShutdownStep::CheckAlive(0));
    assert_eq!(seq.on_alive(true), ShutdownStep::Stop(0));
    assert_eq!(seq.on_stopped(), ShutdownStep::CheckAlive(1));
    assert_eq!(seq.on_alive(false), ShutdownStep::CheckAlive(0));
    assert_eq!(seq.on_alive(true), ShutdownStep::Wait(500));
    assert_eq!(seq.on_waited(), ShutdownStep::CheckAlive(0));
    assert_eq!(seq.on_alive(false), ShutdownStep::CheckAlive(1));
    assert_eq!(seq.on_alive(false), ShutdownStep::Wait(3000));
    assert_eq!(seq.on_waited(), ShutdownStep::Exit);
}

#[test]
fn shutdown_sequence_gives_up_after_sixty_rounds() {
    let (mut seq, _) = ShutdownSequence::new(1);
    assert_eq!(seq.on_waited(), ShutdownStep::CheckAlive(0));
    assert_eq!(seq.on_alive(false), ShutdownStep::CheckAlive(0));
    let mut rounds = 0;
    loop {
        assert_eq!(seq.on_alive(true), ShutdownStep::Wait(500));
        rounds += 1;
        match seq.on_waited() {
            ShutdownStep::CheckAlive(0) => continue,
            ShutdownStep::Wait(3000) => break,
            other => panic!("unexpected step {:?}", other),
        }
    }
    assert_eq!(rounds, 60);
    assert_eq!(seq.on_waited(), ShutdownStep::Exit);
    let (mut empty, _) = ShutdownSequence::new(0);
    assert_eq!(empty.on_waited(), ShutdownStep::Wait(3000));
}

#[test]
fn every_schedules_give_their_delay() {
    assert_eq!(parse_every("5 seconds").ok(), Some(5));
    assert_eq!(parse_every("1 second").ok(), Some(1));
    assert_eq!(parse_every(" 2   minutes ").ok(), Some(120));
    assert_eq!(parse_every("3 hour").ok(), Some(10800));
    assert_eq!(parse_every("5").err().unwrap(), "invalid 'every' schedule: 5");
    assert_eq!(parse_every("x minutes").err().unwrap(), "invalid count 'x' in schedule: x minutes");
    assert_eq!(parse_every("0 hours").err().unwrap(), "count must be > 0 in schedule: 0 hours");
    assert_eq!(parse_every("4 days").err().unwrap(), "unsupported unit 'days' in schedule: 4 days");
    assert!(every_fits("18446744073709551615 seconds"));
    assert!(!every_fits("18446744073709551615 minutes"));
}

#[test]
fn intervals_come_from_every_or_cron_schedules() {
    assert_eq!(parse_interval("every 5 minutes").ok(), Some(Interval { secs: 300, nanos: 0 }));
    assert_eq!(parse_interval("every 0 minutes").err().unwrap(), "count must be > 0 in schedule: 0 minutes");
    let e = parse_interval("not a cron").err().unwrap();
    assert!(e.starts_with("invalid cron expression 'not a cron': "));
    let every_second = parse_interval("* * * * * *").ok().unwrap();
    assert_eq!(every_second.secs, 0);
    assert!(every_second.nanos < 1_000_000_000);
    let hourly = parse_interval("0 0 * * * *").ok().unwrap();
    assert!(hourly.secs <= 3600);
}

#[test]
fn delays_between_instants() {
    let now = Instant { secs: 100, nanos: 900_000_000 };
    let later = Instant { secs: 102, nanos: 100_000_000 };
    assert_eq!(delay_between(later, now).ok(), Some(Interval { secs: 1, nanos: 200_000_000 }));
    assert_eq!(
        delay_between(now, later).err().unwrap(),
        "Source duration value is out of range for the target type"
    );
}

#[test]
fn jobs_run_and_report_as_configured() {
    assert_eq!(effective_output(None, None), OutputMode::Stdout);
    assert_eq!(effective_output(None, Some(OutputMode::Silent)), OutputMode::Silent);
    assert_eq!(effective_output(Some(OutputMode::Stdout), Some(OutputMode::Silent)), OutputMode::Stdout);
    let p = plan_job(true, Some("every 2 seconds".to_string()));
    assert!(p.run_at_start);
    assert_eq!(p.repeat.unwrap().ok(), Some(Interval { secs: 2, nanos: 0 }));
    assert!(plan_job(false, None).repeat.is_none());
}

#[test]
fn desktop_configuration_defaults() {
    let c = DesktopConfig::from_values(None, None, None, None, None);
    assert!(c.enabled && c.open_browser && c.tray.enabled);
    assert_eq!(c.tray.tooltip, "game-smith");
    assert_eq!(c.port, 5150);
    let some = |s: &str| Some(s.to_string());
    let c = DesktopConfig::from_values(some("false"), some("0"), some("no"), some("tip"), some("+8080"));
    assert!(!c.enabled && !c.open_browser && c.tray.enabled);
    assert_eq!(c.tray.tooltip, "tip");
    assert_eq!(c.port, 8080);
    assert_eq!(DesktopConfig::from_values(None, None, None, None, some("70000")).port, 5150);
    assert!(env_switch(some("FALSE")));
}

#[test]
fn desktop_manager_and_tray() {
    let c = DesktopConfig::from_values(None, None, Some("0".to_string()), None, None);
    let url = local_url(c.port);
    assert_eq!(url, "http://127.0.0.1:5150");
    let m = DesktopManager::new(c, url.clone());
    assert_eq!(m.server_url(), "http://127.0.0.1:5150");
    assert!(!m.wants_tray());
    assert!(m.wants_browser());
    let tray = Tray::new(url);
    assert!(matches!(tray.dispatch("open"), MenuAction::OpenUrl(u) if u == "http://127.0.0.1:5150"));
    assert!(matches!(tray.dispatch("quit"), MenuAction::Quit));
    assert!(matches!(tray.dispatch("other"), MenuAction::Ignore));
    assert!(tray_outcome(Some(None)).is_some());
    assert!(tray_outcome(Some(Some("gtk".to_string()))).is_none());
    assert!(tray_outcome(None).is_none());
}

#[test]
fn tray_icon_is_a_light_circle_on_dark_ground() {
    let px = Tray::icon_pixels();
    assert_eq!(px.len(), 32 * 32 * 4);
    let at = |x: usize, y: usize| &px[(y * 32 + x) * 4..(y * 32 + x) * 4 + 4];
    assert_eq!(at(16, 16), &[220, 225, 255, 255]);
    assert_eq!(at(0, 0), &[30, 30, 40, 255]);
    assert_eq!(at(16, 2), &[220, 225, 255, 255]);
    assert_eq!(at(16, 1), &[30, 30, 40, 255]);
}

#[test]
fn tray_library_problems_are_explained() {
    assert_eq!(
        appindicator_problem(None),
        "libayatana-appindicator3 shared library not found.\nInstall it via your package manager or Homebrew.\nFix: make setup"
    );
    let m = appindicator_problem(Some("/usr/lib"));
    assert!(m.starts_with("libayatana-appindicator3.so.1 is installed at `/usr/lib/libayatana-appindicator3.so.1` but not in LD_LIBRARY_PATH."));
    assert!(m.contains("Fix: export LD_LIBRARY_PATH=/usr/lib:$LD_LIBRARY_PATH\n"));
}

#[test]
fn the_first_argument_picks_the_command() {
    assert_eq!(boot_command(None), BootCommand::Start);
    assert_eq!(boot_command(Some("start")), BootCommand::Start);
    assert_eq!(boot_command(Some("autostart-enable")), BootCommand::AutostartEnable);
    assert_eq!(boot_command(Some("autostart-disable")), BootCommand::AutostartDisable);
    assert_eq!(boot_command(Some("autostart-is-enabled")), BootCommand::AutostartIsEnabled);
    assert_eq!(boot_command(Some("db")), BootCommand::Cli);
    let l = launcher_settings("/usr/bin/game-smith".to_string());
    assert_eq!(l.app_name, "Game Smith");
    assert_eq!(l.args, vec!["start".to_string()]);
}

#[test]
fn static_files_and_templates() {
    assert_eq!(content_type("css/app.css"), "text/css");
    assert_eq!(content_type("index.html"), "text/html");
    assert_eq!(content_type("blob.zzqq"), "application/octet-stream");
    assert_eq!(static_asset_path("/static/css/app.css"), Some("css/app.css".to_string()));
    assert_eq!(static_asset_path("/servers"), None);
    assert_eq!(asset_candidates("docs/"), vec!["docs/".to_string(), "docs/index.html".to_string()]);
    assert_eq!(asset_candidates("a.js"), vec!["a.js".to_string()]);
    assert_eq!(template_name("assets/views/steamcmd/status.html"), "steamcmd/status.html");
    assert_eq!(template_name("other/x.html"), "other/x.html");
}

#[test]
fn stale_migrations_and_version_label() {
    let applied = vec!["m1".to_string(), "gone".to_string(), "m2".to_string(), "old".to_string()];
    let available = vec!["m1".to_string(), "m2".to_string(), "m3".to_string()];
    assert_eq!(stale_migrations(&applied, &available), vec!["gone".to_string(), "old".to_string()]);
    assert_eq!(App::app_version("0.3.1", Some("abc"), Some("def")), "0.3.1 (abc)");
    assert_eq!(App::app_version("0.3.1", None, Some("def")), "0.3.1 (def)");
    assert_eq!(App::app_version("0.3.1", None, None), "0.3.1 (dev)");
    assert_eq!(App::app_name(), "game_smith");
}

#[test]
fn boot_steps_and_their_decisions() {
    assert_eq!(SecretKeyInitializer.name(), "secret-key-init");
    assert!(SecretKeyInitializer.needs_key(false, false));
    assert!(!SecretKeyInitializer.needs_key(false, true));
    assert!(!SecretKeyInitializer.needs_key(true, false));
    let uri = "sqlite:///data/game-smith/game-smith.sqlite?mode=rwc";
    assert_eq!(DbValidator.name(), "db-connection-validator");
    assert!(!DbValidator.should_warn(false, uri, "/data/game-smith/game-smith.sqlite"));
    assert!(DbValidator.should_warn(false, uri, "/tmp/other.sqlite"));
    assert!(!DbValidator.should_warn(false, uri, ""));
    assert!(!DbValidator.should_warn(true, uri, "/tmp/other.sqlite"));
    assert_eq!(SteamCmdInstaller.name(), "steamcmd-check");
    assert_eq!(EmbeddedStatic.name(), "embedded-static");
    assert_eq!(EmbeddedI18n.name(), "embedded-i18n");
    assert_eq!(CommandLogInitializer.name(), "command-log-socket");
}

#[test]
fn cron_delays_run_from_now_to_the_next_firing() {
    let now = Instant { secs: 1_000, nanos: 250_000_000 };
    let next = Instant { secs: 1_060, nanos: 0 };
    assert_eq!(
        interval_until("0 * * * * *", Some(next), now).ok(),
        Some(Interval { secs: 59, nanos: 750_000_000 })
    );
    assert_eq!(
        interval_until("0 * * * * *", Some(now), next).err().unwrap(),
        "duration conversion error: Source duration value is out of range for the target type"
    );
    assert_eq!(
        interval_until("0 0 0 1 1 * 1999", None, now).err().unwrap(),
        "no upcoming times for cron expression: 0 0 0 1 1 * 1999"
    );
}

#[test]
fn cron_expressions_parse_or_give_the_invalid_message() {
    assert!(CronSchedule::parse("0 0 * * * *").is_ok());
    let e = CronSchedule::parse("every day").err().unwrap();
    assert!(e.starts_with("invalid cron expression 'every day': "));
    let p = plan_job(false, Some("0 0 0 1 1 * 1999".to_string()));
    assert_eq!(p.repeat.unwrap().err().unwrap(), "no upcoming times for cron expression: 0 0 0 1 1 * 1999");
}
