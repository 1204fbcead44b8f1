use game_smith::game_servers::{default_install_dir_in, sanitize_boot_script, slugify, slugify_lowercased};
use game_smith::installer::{build_install_script_for, GameServerInstaller};

#[test]
fn test_build_install_script_basic() {
    let script = GameServerInstaller::build_install_script(
        740,
        "/home/user/games/cs2",
        "linux",
        None,
        None,
        None,
        None,
    );

    assert!(script.contains("@ShutdownOnFailedCommand 1"));
    assert!(script.contains("@NoPromptForPassword 1"));
    assert!(script.contains("force_install_dir /home/user/games/cs2"));
    assert!(script.contains("login anonymous"));
    assert!(script.contains("app_update 740 validate"));
    assert!(script.contains("quit"));
}

#[test]
fn test_build_install_script_with_mod() {
    let script = GameServerInstaller::build_install_script(
        90,
        "/opt/hlds/czero",
        "linux",
        Some("czero"),
        None,
        None,
        None,
    );

    assert!(script.contains("app_update 90 validate mod_czero"));
}

#[test]
fn test_build_install_script_with_beta() {
    let script = GameServerInstaller::build_install_script(
        252490,
        "/opt/cstrike",
        "linux",
        None,
        Some("public"),
        None,
        None,
    );

    assert!(script.contains("app_update 252490 validate -beta public"));
}

#[test]
fn test_build_install_script_with_steam_auth() {
    let script = GameServerInstaller::build_install_script(
        427520,
        "/opt/factorio",
        "linux",
        None,
        None,
        Some("my_steam_user"),
        Some("my_steam_pass"),
    );

    assert!(script.contains("@ShutdownOnFailedCommand 1"));
    assert!(!script.contains("@NoPromptForPassword 1"));
    assert!(script.contains("login my_steam_user my_steam_pass"));
    assert!(!script.contains("login anonymous"));
    assert!(script.contains("app_update 427520 validate"));
}

#[test]
fn test_build_install_script_cross_platform() {
    let script =
        GameServerInstaller::build_install_script(740, "/opt/cs2", "windows", None, None, None, None);
    assert!(script.contains("@sSteamCmdForcePlatformType windows"));

    let script = build_install_script_for(
        "windows",
        740,
        "C:\\games\\cs2",
        "linux",
        None,
        None,
        None,
        None,
    );
    assert!(script.contains("@sSteamCmdForcePlatformType linux"));
}

#[test]
fn test_slugify() {
    assert_eq!(slugify("My CS2 Server"), "my-cs2-server");
    assert_eq!(slugify("  hello   world  "), "hello-world");
    assert_eq!(slugify("test_123"), "test-123");
}

#[test]
fn test_default_install_dir() {
    let dir = default_install_dir_in("/home/someone", "My Server");
    assert!(dir.contains("/game-smith/games/my-server"));
}

#[test]
fn test_build_install_script_empty_strings_treated_as_none() {
    let script = GameServerInstaller::build_install_script(
        740,
        "/home/user/games/cs2",
        "linux",
        Some(""),
        Some(""),
        None,
        None,
    );

    assert!(script.contains("app_update 740 validate"));
    assert!(!script.contains("mod_"));
    assert!(!script.contains("-beta"));
    assert!(script.contains("login anonymous"));
}

#[test]
fn test_build_install_script_empty_mod_only() {
    let script = GameServerInstaller::build_install_script(
        740,
        "/home/user/games/cs2",
        "linux",
        Some(""),
        Some("beta"),
        None,
        None,
    );

    assert!(!script.contains("mod_"));
    assert!(script.contains("-beta beta"));
}

#[test]
fn test_build_install_script_empty_steam_creds_treated_as_anonymous() {
    let script = GameServerInstaller::build_install_script(
        740,
        "/opt/cs2",
        "linux",
        None,
        None,
        Some(""),
        Some("password"),
    );

    assert!(script.contains("login anonymous"));
    assert!(script.contains("@NoPromptForPassword 1"));
}

#[test]
fn sanitize_removes_cr() {
    let out = sanitize_boot_script("echo hello\r\necho world\r\n");
    assert_eq!(out, "echo hello\necho world\n");
}

#[test]
fn sanitize_keeps_lf_and_tab() {
    let out = sanitize_boot_script("line1\n\tindented\n");
    assert_eq!(out, "line1\n\tindented\n");
}

#[test]
fn sanitize_strips_null_bytes() {
    let out = sanitize_boot_script("hello\x00world");
    assert_eq!(out, "helloworld");
}

#[test]
fn sanitize_strips_del() {
    let out = sanitize_boot_script("hello\x7Fworld");
    assert_eq!(out, "helloworld");
}

#[test]
fn sanitize_strips_all_c0_controls() {
    let input: String = (0u8..=0x1F).map(|b| b as char).collect();
    let out = sanitize_boot_script(&input);
    assert_eq!(out, "\t\n");
}

#[test]
fn sanitize_keeps_printable_ascii() {
    let input: String = (0x20u8..=0x7Eu8).map(|b| b as char).collect();
    assert_eq!(sanitize_boot_script(&input), input);
}

#[test]
fn sanitize_keeps_unicode() {
    let out = sanitize_boot_script("café ☕ 你好");
    assert_eq!(out, "café ☕ 你好");
}

#[test]
fn slugs_of_lowercased_text_collapse_hyphens() {
    assert_eq!(slugify_lowercased("  my -- cs2   server!! "), "my-cs2-server");
    assert_eq!(slugify_lowercased("---"), "");
    assert_eq!(slugify_lowercased("a_b"), "a-b");
    assert_eq!(slugify(&slugify("Ünïcode Sérver #1")), slugify("Ünïcode Sérver #1"));
}

#[test]
fn install_scripts_split_into_their_lines() {
    let s = game_smith::installer::GameServerInstaller::build_install_script(
        740, "/srv/cs2", "windows", Some("csgo"), Some("beta"), Some("u"), Some("p"),
    );
    let lines: Vec<&str> = s.split('\n').collect();
    assert_eq!(
        lines,
        vec![
            "@ShutdownOnFailedCommand 1",
            "@sSteamCmdForcePlatformType windows",
            "force_install_dir /srv/cs2",
            "login u p",
            "app_update 740 validate mod_csgo -beta beta",
            "quit",
        ]
    );
}
