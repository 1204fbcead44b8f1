//! Desktop integration: its configuration, the tray menu and icon, the
//! start-on-login entry, and which command the program was started for.
use vstd::prelude::*;

use crate::text::{cat, parse_unsigned, parse_unsigned_str, str_eq};

verus! {

/// Tray icon settings.
#[derive(Debug, Clone)]
pub struct TrayConfig {
    pub enabled: bool,
    pub tooltip: String,
}

/// Configuration of the desktop integration layer.
#[derive(Debug, Clone)]
pub struct DesktopConfig {
    pub enabled: bool,
    pub open_browser: bool,
    pub tray: TrayConfig,
    pub port: u16,
}

/// The port the server listens on unless configured otherwise.
pub const DEFAULT_PORT: u16 = 5150;

/// A switch read from the environment: on when unset, off only for `false` or `0`.
pub open spec fn switch_on(value: Option<Seq<char>>) -> bool {
    match value {
        None => true,
        Some(v) => v != "false"@ && v != "0"@,
    }
}

/// Reads a switch from its environment value.
pub fn env_switch(value: Option<String>) -> (r: bool)
    ensures
        r == switch_on(match value { Some(v) => Some(v@), None => None }),
{
    match value {
        None => true,
        Some(v) => !str_eq(v.as_str(), "false") && !str_eq(v.as_str(), "0"),
    }
}

impl DesktopConfig {
    /// The configuration from the environment values of
    /// `GAME_SMITH_DESKTOP_ENABLED`, `GAME_SMITH_DESKTOP_OPEN_BROWSER`,
    /// `GAME_SMITH_DESKTOP_TRAY_ENABLED`, `GAME_SMITH_DESKTOP_TRAY_TOOLTIP` and
    /// `GAME_SMITH_PORT` (`None` where unset): the switches default to on, the
    /// tooltip to `game-smith`, and the port, when it does not parse as a `u16`, to 5150.
    pub fn from_values(
        enabled: Option<String>,
        open_browser: Option<String>,
        tray_enabled: Option<String>,
        tooltip: Option<String>,
        port: Option<String>,
    ) -> (r: DesktopConfig)
        ensures
            r.enabled == switch_on(match enabled { Some(v) => Some(v@), None => None }),
            r.open_browser == switch_on(match open_browser { Some(v) => Some(v@), None => None }),
            r.tray.enabled == switch_on(match tray_enabled { Some(v) => Some(v@), None => None }),
            r.tray.tooltip@ == match tooltip { Some(t) => t@, None => "game-smith"@ },
            r.port == match port {
                Some(p) => match parse_unsigned(p@, u16::MAX as nat) {
                    Some(n) => n as u16,
                    None => DEFAULT_PORT,
                },
                None => DEFAULT_PORT,
            },
    {
        let port: u16 = match port {
            Some(p) => match parse_unsigned_str(p.as_str(), 65535) {
                Some(n) => n as u16,
                None => DEFAULT_PORT,
            },
            None => DEFAULT_PORT,
        };
        let tooltip = match tooltip {
            Some(t) => t,
            None => "game-smith".to_string(),
        };
        DesktopConfig {
            enabled: env_switch(enabled),
            open_browser: env_switch(open_browser),
            tray: TrayConfig { enabled: env_switch(tray_enabled), tooltip },
            port,
        }
    }
}

/// Held while the tray icon is shown.
pub struct DesktopHandle {}

/// Manages desktop integration: tray icon, notifications, browser auto-open.
pub struct DesktopManager {
    config: DesktopConfig,
    server_url: String,
}

impl DesktopManager {
    /// The configuration the manager was made with.
    pub closed spec fn spec_config(&self) -> DesktopConfig {
        self.config
    }

    /// The URL the manager was made with.
    pub closed spec fn spec_server_url(&self) -> Seq<char> {
        self.server_url@
    }

    /// Creates a manager with the given configuration and server URL.
    pub fn new(config: DesktopConfig, server_url: String) -> (r: DesktopManager)
        ensures
            r.spec_config() == config,
            r.spec_server_url() == server_url@,
    {
        DesktopManager { config, server_url }
    }

    /// The configured server URL.
    pub fn server_url(&self) -> (r: &str)
        ensures
            r@ == self.spec_server_url(),
    {
        self.server_url.as_str()
    }

    /// The configuration.
    pub fn config(&self) -> (r: &DesktopConfig)
        ensures
            *r == self.spec_config(),
    {
        &self.config
    }

    /// Whether a tray icon is to be shown.
    pub fn wants_tray(&self) -> (r: bool)
        ensures
            r == self.spec_config().tray.enabled,
    {
        self.config.tray.enabled
    }

    /// Whether the browser is to be opened on the server URL.
    pub fn wants_browser(&self) -> (r: bool)
        ensures
            r == self.spec_config().open_browser,
    {
        self.config.open_browser
    }
}

/// The local URL of the server on a port.
pub fn local_url(port: u16) -> (r: String)
    ensures
        r@ == "http://127.0.0.1:"@ + crate::text::decimal(port as nat),
{
    let p = crate::text::decimal_string(port as u64);
    cat("http://127.0.0.1:", p.as_str())
}

/// What the tray thread reported: `None` once the icon is up, or the reason it
/// could not be shown. The tray is shown only when the icon came up.
pub fn tray_outcome(report: Option<Option<String>>) -> (r: Option<DesktopHandle>)
    ensures
        r is Some <==> report == Some(None::<String>),
{
    match report {
        Some(None) => Some(DesktopHandle {}),
        _ => None,
    }
}

/// The file name of the library the Linux tray needs.
pub open spec fn appindicator_file() -> Seq<char> {
    "libayatana-appindicator3.so.1"@
}

/// The directories where the tray library is looked for when it is not on
/// `LD_LIBRARY_PATH`, in the order they are tried.
pub fn common_library_dirs() -> (r: Vec<&'static str>)
    ensures
        r@.len() == 4,
        r@[0]@ == "/home/linuxbrew/.linuxbrew/lib"@,
        r@[1]@ == "/home/linuxbrew/.linuxbrew/opt/libayatana-appindicator/lib"@,
        r@[2]@ == "/usr/lib"@,
        r@[3]@ == "/usr/lib/x86_64-linux-gnu"@,
{
    vec![
        "/home/linuxbrew/.linuxbrew/lib",
        "/home/linuxbrew/.linuxbrew/opt/libayatana-appindicator/lib",
        "/usr/lib",
        "/usr/lib/x86_64-linux-gnu",
    ]
}

/// Where the tray library would be in a directory.
pub fn library_path_in(dir: &str) -> (r: String)
    ensures
        r@ == dir@ + "/"@ + appindicator_file(),
{
    let p = cat(dir, "/");
    cat(p.as_str(), "libayatana-appindicator3.so.1")
}

/// The explanation of a tray library that cannot be loaded: installed in
/// `dir` but not on `LD_LIBRARY_PATH`, or (`None`) not found at all.
pub open spec fn appindicator_problem_text(dir: Option<Seq<char>>) -> Seq<char> {
    match dir {
        Some(d) => "libayatana-appindicator3.so.1 is installed at `"@ + d + "/"@ + appindicator_file()
            + "` but not in LD_LIBRARY_PATH.\nThe tray icon requires this library at runtime.\nFix: export LD_LIBRARY_PATH="@
            + d + ":$LD_LIBRARY_PATH\nOr: use 'make dev' instead of 'cargo run' (automatically sets LD_LIBRARY_PATH)."@,
        None => "libayatana-appindicator3 shared library not found.\nInstall it via your package manager or Homebrew.\nFix: make setup"@,
    }
}

/// The explanation of a tray library that cannot be loaded.
pub fn appindicator_problem(dir: Option<&str>) -> (r: String)
    ensures
        r@ == appindicator_problem_text(match dir { Some(d) => Some(d@), None => None }),
{
    match dir {
        Some(d) => {
            let lib = library_path_in(d);
            let m = cat("libayatana-appindicator3.so.1 is installed at `", lib.as_str());
            let m = cat(m.as_str(), "` but not in LD_LIBRARY_PATH.\nThe tray icon requires this library at runtime.\nFix: export LD_LIBRARY_PATH=");
            let m = cat(m.as_str(), d);
            cat(m.as_str(), ":$LD_LIBRARY_PATH\nOr: use 'make dev' instead of 'cargo run' (automatically sets LD_LIBRARY_PATH).")
        },
        None => "libayatana-appindicator3 shared library not found.\nInstall it via your package manager or Homebrew.\nFix: make setup".to_string(),
    }
}

/// Menu item identifier of "Open Dashboard".
pub const MENU_OPEN: &'static str = "open";

/// Menu item identifier of "Quit".
pub const MENU_QUIT: &'static str = "quit";

/// What a tray menu click asks for.
#[derive(Debug)]
pub enum MenuAction {
    /// Open this URL in the browser.
    OpenUrl(String),
    /// Exit the program.
    Quit,
    /// Nothing.
    Ignore,
}

/// Tray icon state: the server URL that menu events need.
pub struct Tray {
    server_url: String,
}

/// Side of the square tray icon, in pixels.
pub const ICON_SIZE: u32 = 32;

/// Whether pixel (`x`, `y`) of the icon lies in its circle: within 14 pixels
/// of the centre (16, 16).
pub open spec fn in_circle(x: int, y: int) -> bool {
    (x - 16) * (x - 16) + (y - 16) * (y - 16) <= 196
}

/// Channel `c` (red, green, blue, alpha) of pixel (`x`, `y`): a light circle,
/// `(220, 225, 255)`, on a dark ground, `(30, 30, 40)`, fully opaque.
pub open spec fn icon_channel(x: int, y: int, c: int) -> u8 {
    if c == 3 {
        255
    } else if in_circle(x, y) {
        if c == 0 { 220 } else if c == 1 { 225 } else { 255 }
    } else {
        if c == 2 { 40 } else { 30 }
    }
}

impl Tray {
    /// The URL the tray was made with.
    pub closed spec fn spec_server_url(&self) -> Seq<char> {
        self.server_url@
    }

    /// Creates a tray for the given server URL.
    pub fn new(server_url: String) -> (r: Tray)
        ensures
            r.spec_server_url() == server_url@,
    {
        Tray { server_url }
    }

    /// What a click on the menu item `id` asks for: "Open Dashboard" opens the
    /// server URL, "Quit" exits, anything else is ignored.
    pub fn dispatch(&self, id: &str) -> (r: MenuAction)
        ensures
            id@ == MENU_OPEN@ ==> (r matches MenuAction::OpenUrl(u) && u@ == self.spec_server_url()),
            id@ != MENU_OPEN@ && id@ == MENU_QUIT@ ==> r is Quit,
            id@ != MENU_OPEN@ && id@ != MENU_QUIT@ ==> r is Ignore,
    {
        if str_eq(id, MENU_OPEN) {
            MenuAction::OpenUrl(self.server_url.clone())
        } else if str_eq(id, MENU_QUIT) {
            MenuAction::Quit
        } else {
            MenuAction::Ignore
        }
    }

    /// The RGBA pixels of the 32×32 icon, row by row.
    pub fn icon_pixels() -> (r: Vec<u8>)
        ensures
            r@.len() == 32 * 32 * 4,
            forall|y: int, x: int, c: int| 0 <= y < 32 && 0 <= x < 32 && 0 <= c < 4
                ==> #[trigger] r@[(y * 32 + x) * 4 + c] == icon_channel(x, y, c),
    {
        let mut pixels: Vec<u8> = Vec::new();
        for y in 0..32u32
            invariant
                pixels@.len() == y * 32 * 4,
                forall|yy: int, x: int, c: int| 0 <= yy < y && 0 <= x < 32 && 0 <= c < 4
                    ==> #[trigger] pixels@[(yy * 32 + x) * 4 + c] == icon_channel(x, yy, c),
        {
            for x in 0..32u32
                invariant
                    y < 32,
                    pixels@.len() == (y * 32 + x) * 4,
                    forall|yy: int, xx: int, c: int| 0 <= yy < y && 0 <= xx < 32 && 0 <= c < 4
                        ==> #[trigger] pixels@[(yy * 32 + xx) * 4 + c] == icon_channel(xx, yy, c),
                    forall|xx: int, c: int| 0 <= xx < x && 0 <= c < 4
                        ==> #[trigger] pixels@[(y * 32 + xx) * 4 + c] == icon_channel(xx, y as int, c),
            {
                let dx: u32 = if x >= 16 { x - 16 } else { 16 - x };
                let dy: u32 = if y >= 16 { y - 16 } else { 16 - y };
                assert(dx * dx <= 256 && dy * dy <= 256) by (nonlinear_arith)
                    requires
                        dx <= 16, dy <= 16,
                ;
                let inside = dx * dx + dy * dy <= 196;
                assert(inside == in_circle(x as int, y as int)) by (nonlinear_arith)
                    requires
                        dx == (if x >= 16 { x - 16 } else { 16 - x }),
                        dy == (if y >= 16 { y - 16 } else { 16 - y }),
                        inside == (dx * dx + dy * dy <= 196),
                ;
                let ghost before = pixels@;
                if inside {
                    pixels.push(220);
                    pixels.push(225);
                    pixels.push(255);
                } else {
                    pixels.push(30);
                    pixels.push(30);
                    pixels.push(40);
                }
                pixels.push(255);
                let ghost base = (y * 32 + x) * 4;
                assert(before.len() == base);
                assert forall|yy: int, xx: int, c: int| 0 <= yy < y && 0 <= xx < 32 && 0 <= c < 4
                    implies #[trigger] pixels@[(yy * 32 + xx) * 4 + c] == icon_channel(xx, yy, c) by {
                    assert((yy * 32 + xx) * 4 + c < base) by (nonlinear_arith)
                        requires
                            0 <= yy < y, 0 <= xx < 32, 0 <= c < 4, base == (y * 32 + x) * 4, x >= 0,
                    ;
                    assert(pixels@[(yy * 32 + xx) * 4 + c] == before[(yy * 32 + xx) * 4 + c]);
                }
                assert forall|xx: int, c: int| 0 <= xx < x + 1 && 0 <= c < 4
                    implies #[trigger] pixels@[(y * 32 + xx) * 4 + c] == icon_channel(xx, y as int, c) by {
                    if xx < x {
                        assert((y * 32 + xx) * 4 + c < base) by (nonlinear_arith)
                            requires
                                0 <= xx < x, 0 <= c < 4, base == (y * 32 + x) * 4,
                        ;
                        assert(pixels@[(y * 32 + xx) * 4 + c] == before[(y * 32 + xx) * 4 + c]);
                    } else {
                        assert((y * 32 + xx) * 4 + c == base + c) by (nonlinear_arith)
                            requires
                                xx == x, base == (y * 32 + x) * 4,
                        ;
                    }
                }
            }
            assert forall|yy: int, x: int, c: int| 0 <= yy < y + 1 && 0 <= x < 32 && 0 <= c < 4
                implies #[trigger] pixels@[(yy * 32 + x) * 4 + c] == icon_channel(x, yy, c) by {
                if yy == y {
                }
            }
        }
        pixels
    }
}

/// Which command the program was started for, from its first argument.
#[derive(Debug, PartialEq, Eq, Structural)]
pub enum BootCommand {
    /// Turn the start-on-login entry on.
    AutostartEnable,
    /// Turn the start-on-login entry off.
    AutostartDisable,
    /// Report whether the start-on-login entry is on.
    AutostartIsEnabled,
    /// Boot the server (no argument, or `start`).
    Start,
    /// Any other command line, handled by the command-line interface.
    Cli,
}

/// The command of a first argument.
pub open spec fn boot_command_of(arg: Option<Seq<char>>) -> BootCommand {
    match arg {
        None => BootCommand::Start,
        Some(a) => if a == "autostart-enable"@ {
            BootCommand::AutostartEnable
        } else if a == "autostart-disable"@ {
            BootCommand::AutostartDisable
        } else if a == "autostart-is-enabled"@ {
            BootCommand::AutostartIsEnabled
        } else if a == "start"@ {
            BootCommand::Start
        } else {
            BootCommand::Cli
        },
    }
}

/// The command the program was started for.
pub fn boot_command(arg: Option<&str>) -> (r: BootCommand)
    ensures
        r == boot_command_of(match arg { Some(a) => Some(a@), None => None }),
{
    match arg {
        None => BootCommand::Start,
        Some(a) => if str_eq(a, "autostart-enable") {
            BootCommand::AutostartEnable
        } else if str_eq(a, "autostart-disable") {
            BootCommand::AutostartDisable
        } else if str_eq(a, "autostart-is-enabled") {
            BootCommand::AutostartIsEnabled
        } else if str_eq(a, "start") {
            BootCommand::Start
        } else {
            BootCommand::Cli
        },
    }
}

/// The report of the start-on-login state.
pub fn autostart_state_message(enabled: bool) -> (r: String)
    ensures
        r@ == "game-smith: autostart is "@ + (if enabled { "enabled"@ } else { "disabled"@ }),
{
    if enabled {
        cat("game-smith: autostart is ", "enabled")
    } else {
        cat("game-smith: autostart is ", "disabled")
    }
}

/// The settings of the start-on-login entry: the application name, the path
/// of the program, and the arguments it is started with.
#[derive(Debug)]
pub struct LauncherSettings {
    pub app_name: String,
    pub app_path: String,
    pub args: Vec<String>,
}

/// The start-on-login entry for the program at `binary_path`: named
/// `Game Smith`, started with the single argument `start` so that it boots the server.
pub fn launcher_settings(binary_path: String) -> (r: LauncherSettings)
    ensures
        r.app_name@ == "Game Smith"@,
        r.app_path == binary_path,
        r.args@.len() == 1,
        r.args@[0]@ == "start"@,
{
    let mut args: Vec<String> = Vec::new();
    args.push("start".to_string());
    LauncherSettings { app_name: "Game Smith".to_string(), app_path: binary_path, args }
}

} // verus!
