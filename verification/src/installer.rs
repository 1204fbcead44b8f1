//! SteamCMD scripts and process launch plans for installing, updating and starting
//! game servers.
use vstd::prelude::*;

use crate::dirs::{join_path, path_join};
use crate::game_servers::Model;
use crate::status::ServerStatus;
use crate::command_runs::Model as RunModel;
use crate::encryption::{encryption_error_text, EncryptionError};
use crate::status::CommandStatus;
use crate::text::{
    cat, decimal, decimal_string, free_of, join, join_strings, lemma_concat_free, lemma_decimal_digits,
    lemma_join_free, lemma_split_join, split_char, str_eq,
};

verus! {

/// The view of an optional string slice.
pub open spec fn opt_view(o: Option<&str>) -> Option<Seq<char>> {
    match o {
        Some(s) => Some(s@),
        None => None,
    }
}

/// An optional text, with an empty text counted as absent.
pub open spec fn present(o: Option<Seq<char>>) -> Option<Seq<char>> {
    match o {
        Some(s) => if s.len() > 0 {
            Some(s)
        } else {
            None
        },
        None => None,
    }
}

/// Steam login credentials: present when both username and password are non-empty.
pub open spec fn credentials(user: Option<Seq<char>>, pass: Option<Seq<char>>) -> Option<(Seq<char>, Seq<char>)> {
    match (present(user), present(pass)) {
        (Some(u), Some(p)) => Some((u, p)),
        _ => None,
    }
}

/// The arguments of the `app_update` command: the app id, `validate`, then
/// `mod_{mod}` and `-beta {branch}` when given.
pub open spec fn app_update_args(app_id: u32, server_mod: Option<Seq<char>>, beta_branch: Option<Seq<char>>) -> Seq<Seq<char>> {
    let a0 = seq![decimal(app_id as nat), "validate"@];
    let a1 = match present(server_mod) {
        Some(m) => a0.push("mod_"@ + m),
        None => a0,
    };
    match present(beta_branch) {
        Some(b) => a1.push("-beta"@).push(b),
        None => a1,
    }
}

/// The lines of the SteamCMD install script.
pub open spec fn script_lines(
    host: Seq<char>,
    app_id: u32,
    install_dir: Seq<char>,
    platform: Seq<char>,
    server_mod: Option<Seq<char>>,
    beta_branch: Option<Seq<char>>,
    user: Option<Seq<char>>,
    pass: Option<Seq<char>>,
) -> Seq<Seq<char>> {
    let creds = credentials(user, pass);
    let l0 = seq!["@ShutdownOnFailedCommand 1"@];
    let l1 = if creds is None {
        l0.push("@NoPromptForPassword 1"@)
    } else {
        l0
    };
    let l2 = if platform != host {
        l1.push("@sSteamCmdForcePlatformType "@ + platform)
    } else {
        l1
    };
    let l3 = l2.push("force_install_dir "@ + install_dir);
    let l4 = match creds {
        Some((u, p)) => l3.push("login "@ + u + " "@ + p),
        None => l3.push("login anonymous"@),
    };
    l4.push("app_update "@ + join(app_update_args(app_id, server_mod, beta_branch), " "@)).push(
        "quit"@,
    )
}

/// The SteamCMD install script: its lines joined by newlines.
pub open spec fn install_script(
    host: Seq<char>,
    app_id: u32,
    install_dir: Seq<char>,
    platform: Seq<char>,
    server_mod: Option<Seq<char>>,
    beta_branch: Option<Seq<char>>,
    user: Option<Seq<char>>,
    pass: Option<Seq<char>>,
) -> Seq<char> {
    join(
        script_lines(host, app_id, install_dir, platform, server_mod, beta_branch, user, pass),
        "\n"@,
    )
}

/// An optional text without a newline (an absent one has none).
pub open spec fn opt_free_of_newline(o: Option<Seq<char>>) -> bool {
    match o {
        Some(s) => free_of(s, '\n'),
        None => true,
    }
}

proof fn lemma_literals_free_of_newline()
    ensures
        free_of("@ShutdownOnFailedCommand 1"@, '\n'),
        free_of("@NoPromptForPassword 1"@, '\n'),
        free_of("@sSteamCmdForcePlatformType "@, '\n'),
        free_of("force_install_dir "@, '\n'),
        free_of("login "@, '\n'),
        free_of(" "@, '\n'),
        free_of("login anonymous"@, '\n'),
        free_of("app_update "@, '\n'),
        free_of("validate"@, '\n'),
        free_of("mod_"@, '\n'),
        free_of("-beta"@, '\n'),
        free_of("quit"@, '\n'),
        "\n"@ == seq!['\n'],
{
    reveal_strlit("@ShutdownOnFailedCommand 1");
    reveal_strlit("@NoPromptForPassword 1");
    reveal_strlit("@sSteamCmdForcePlatformType ");
    reveal_strlit("force_install_dir ");
    reveal_strlit("login ");
    reveal_strlit(" ");
    reveal_strlit("login anonymous");
    reveal_strlit("app_update ");
    reveal_strlit("validate");
    reveal_strlit("mod_");
    reveal_strlit("-beta");
    reveal_strlit("quit");
    reveal_strlit("\n");
}

/// The install script, split at its newlines, is its lines: `@ShutdownOnFailedCommand 1`;
/// `@NoPromptForPassword 1` without credentials; `@sSteamCmdForcePlatformType {platform}`
/// when the platform is not the host's; `force_install_dir {dir}`; `login {user} {pass}`
/// or `login anonymous`; `app_update {app_id} validate` with ` mod_{mod}` and
/// ` -beta {branch}` when given; `quit`. This holds whenever no argument holds a
/// newline.
pub proof fn lemma_install_script_lines(
    host: Seq<char>,
    app_id: u32,
    install_dir: Seq<char>,
    platform: Seq<char>,
    server_mod: Option<Seq<char>>,
    beta_branch: Option<Seq<char>>,
    user: Option<Seq<char>>,
    pass: Option<Seq<char>>,
)
    requires
        free_of(install_dir, '\n'),
        free_of(platform, '\n'),
        opt_free_of_newline(server_mod),
        opt_free_of_newline(beta_branch),
        opt_free_of_newline(user),
        opt_free_of_newline(pass),
    ensures
        split_char(install_script(host, app_id, install_dir, platform, server_mod, beta_branch, user, pass), '\n')
            == script_lines(host, app_id, install_dir, platform, server_mod, beta_branch, user, pass),
{
    lemma_literals_free_of_newline();
    let ls = script_lines(host, app_id, install_dir, platform, server_mod, beta_branch, user, pass);
    let nl = '\n';
    lemma_concat_free("@sSteamCmdForcePlatformType "@, platform, nl);
    lemma_concat_free("force_install_dir "@, install_dir, nl);
    match credentials(user, pass) {
        Some((u, p)) => {
            lemma_concat_free("login "@, u, nl);
            lemma_concat_free("login "@ + u, " "@, nl);
            lemma_concat_free("login "@ + u + " "@, p, nl);
        },
        None => {},
    }
    lemma_decimal_digits(app_id as nat);
    let args = app_update_args(app_id, server_mod, beta_branch);
    match present(server_mod) {
        Some(m) => lemma_concat_free("mod_"@, m, nl),
        None => {},
    }
    assert forall|k: int| 0 <= k < args.len() implies free_of(#[trigger] args[k], nl) by {
        if k == 0 {
            assert forall|i: int| 0 <= i < args[0].len() implies args[0][i] != nl by {
                assert('0' <= decimal(app_id as nat)[i] <= '9');
            }
        }
    }
    lemma_join_free(args, " "@, nl);
    lemma_concat_free("app_update "@, join(args, " "@), nl);
    assert forall|k: int| 0 <= k < ls.len() implies free_of(#[trigger] ls[k], nl) by {}
    lemma_split_join(ls, nl);
}

/// The platform of the machine this library manages servers on.
pub fn host_platform() -> (r: &'static str)
    ensures
        r@ == "linux"@,
{
    "linux"
}

fn present_str<'a>(o: Option<&'a str>) -> (r: Option<&'a str>)
    ensures
        opt_view(r) == present(opt_view(o)),
{
    match o {
        Some(s) => if s.is_empty() {
            None
        } else {
            Some(s)
        },
        None => None,
    }
}

/// Build a SteamCMD install script for a machine of platform `host`.
pub fn build_install_script_for(
    host: &str,
    app_id: u32,
    install_dir: &str,
    platform: &str,
    server_mod: Option<&str>,
    beta_branch: Option<&str>,
    steam_username: Option<&str>,
    steam_password: Option<&str>,
) -> (r: String)
    ensures
        r@ == install_script(
            host@,
            app_id,
            install_dir@,
            platform@,
            opt_view(server_mod),
            opt_view(beta_branch),
            opt_view(steam_username),
            opt_view(steam_password),
        ),
{
    let user = present_str(steam_username);
    let pass = present_str(steam_password);
    let creds: Option<(&str, &str)> = match (user, pass) {
        (Some(u), Some(p)) => Some((u, p)),
        _ => None,
    };
    let mut lines: Vec<String> = Vec::new();
    lines.push("@ShutdownOnFailedCommand 1".to_owned());
    if creds.is_none() {
        lines.push("@NoPromptForPassword 1".to_owned());
    }
    if !str_eq(platform, host) {
        lines.push(cat("@sSteamCmdForcePlatformType ", platform));
    }
    lines.push(cat("force_install_dir ", install_dir));
    match creds {
        Some((u, p)) => {
            let mut l = cat("login ", u);
            l.append(" ");
            l.append(p);
            lines.push(l);
        },
        None => {
            lines.push("login anonymous".to_owned());
        },
    }
    let mut args: Vec<String> = Vec::new();
    args.push(decimal_string(app_id as u64));
    args.push("validate".to_owned());
    match present_str(server_mod) {
        Some(m) => {
            args.push(cat("mod_", m));
        },
        None => {},
    }
    match present_str(beta_branch) {
        Some(b) => {
            args.push("-beta".to_owned());
            args.push(b.to_owned());
        },
        None => {},
    }
    let joined = join_strings(&args, " ");
    lines.push(cat("app_update ", joined.as_str()));
    lines.push("quit".to_owned());
    let ghost expected = script_lines(
        host@,
        app_id,
        install_dir@,
        platform@,
        opt_view(server_mod),
        opt_view(beta_branch),
        opt_view(steam_username),
        opt_view(steam_password),
    );
    assert(args.deep_view() =~= app_update_args(app_id, opt_view(server_mod), opt_view(beta_branch)));
    assert(lines.deep_view() =~= expected);
    join_strings(&lines, "\n")
}

/// High-level API for installing and managing game servers via SteamCMD.
pub struct GameServerInstaller;

impl GameServerInstaller {
    /// Build a SteamCMD script for installing a game server on this machine.
    pub fn build_install_script(
        app_id: u32,
        install_dir: &str,
        platform: &str,
        server_mod: Option<&str>,
        beta_branch: Option<&str>,
        steam_username: Option<&str>,
        steam_password: Option<&str>,
    ) -> (r: String)
        ensures
            r@ == install_script(
                "linux"@,
                app_id,
                install_dir@,
                platform@,
                opt_view(server_mod),
                opt_view(beta_branch),
                opt_view(steam_username),
                opt_view(steam_password),
            ),
    {
        build_install_script_for(
            host_platform(),
            app_id,
            install_dir,
            platform,
            server_mod,
            beta_branch,
            steam_username,
            steam_password,
        )
    }

    /// Build a SteamCMD script for updating an existing game server: the same script
    /// as for installing it.
    pub fn build_update_script(
        app_id: u32,
        install_dir: &str,
        platform: &str,
        server_mod: Option<&str>,
        beta_branch: Option<&str>,
        steam_username: Option<&str>,
        steam_password: Option<&str>,
    ) -> (r: String)
        ensures
            r@ == install_script(
                "linux"@,
                app_id,
                install_dir@,
                platform@,
                opt_view(server_mod),
                opt_view(beta_branch),
                opt_view(steam_username),
                opt_view(steam_password),
            ),
    {
        Self::build_install_script(
            app_id,
            install_dir,
            platform,
            server_mod,
            beta_branch,
            steam_username,
            steam_password,
        )
    }
}

/// An empty mod, beta branch, username or password gives the same script as an
/// absent one.
pub proof fn lemma_empty_fields_count_as_absent(
    host: Seq<char>,
    app_id: u32,
    install_dir: Seq<char>,
    platform: Seq<char>,
    server_mod: Option<Seq<char>>,
    beta_branch: Option<Seq<char>>,
    user: Option<Seq<char>>,
    pass: Option<Seq<char>>,
)
    ensures
        install_script(host, app_id, install_dir, platform, Some(seq![]), beta_branch, user, pass)
            == install_script(host, app_id, install_dir, platform, None, beta_branch, user, pass),
        install_script(host, app_id, install_dir, platform, server_mod, Some(seq![]), user, pass)
            == install_script(host, app_id, install_dir, platform, server_mod, None, user, pass),
        install_script(host, app_id, install_dir, platform, server_mod, beta_branch, Some(seq![]), pass)
            == install_script(host, app_id, install_dir, platform, server_mod, beta_branch, None, pass),
        install_script(host, app_id, install_dir, platform, server_mod, beta_branch, user, Some(seq![]))
            == install_script(host, app_id, install_dir, platform, server_mod, beta_branch, user, None),
{
}

/// Anonymous login exactly when no complete credentials are given: the script then
/// disables the password prompt and logs in as `anonymous`; otherwise it logs in with
/// the username and password and keeps the prompt setting unset.
pub proof fn lemma_login_mode(
    host: Seq<char>,
    app_id: u32,
    install_dir: Seq<char>,
    platform: Seq<char>,
    server_mod: Option<Seq<char>>,
    beta_branch: Option<Seq<char>>,
    user: Option<Seq<char>>,
    pass: Option<Seq<char>>,
)
    ensures
        ({
            let ls = script_lines(host, app_id, install_dir, platform, server_mod, beta_branch, user, pass);
            let k = ls.len() - 3;
            match credentials(user, pass) {
                None => ls[1] == "@NoPromptForPassword 1"@ && ls[k] == "login anonymous"@,
                Some((u, p)) => ls[k] == "login "@ + u + " "@ + p && ls[1]
                    != "@NoPromptForPassword 1"@,
            }
        }),
{
    reveal_strlit("@NoPromptForPassword 1");
    reveal_strlit("@sSteamCmdForcePlatformType ");
    reveal_strlit("force_install_dir ");
    let ls = script_lines(host, app_id, install_dir, platform, server_mod, beta_branch, user, pass);
    if credentials(user, pass) is Some {
        assert(ls[1][1] != "@NoPromptForPassword 1"@[1]);
    }
}


/// A process to launch through the command runner.
pub struct LaunchPlan {
    pub command: String,
    pub args: Vec<String>,
    pub working_dir: Option<String>,
    pub title: Option<String>,
    pub server_id: Option<i64>,
}

/// A SteamCMD script to write to `script_path`, and the launch that runs it.
pub struct ScriptPlan {
    pub script_path: String,
    pub script: String,
    pub launch: LaunchPlan,
}

/// The app id of a record as SteamCMD sees it (negative stored values read as 0).
pub open spec fn record_app_id(server: Model) -> u32 {
    if server.app_id >= 0 {
        server.app_id as u32
    } else {
        0u32
    }
}

/// The credentials a server installs with: the given ones when it uses Steam login,
/// none otherwise.
pub open spec fn login_for(server: Model, given: Option<Seq<char>>) -> Option<Seq<char>> {
    if server.use_steam_login {
        given
    } else {
        None
    }
}

/// The view of an optional owned string.
pub open spec fn opt_string_view(o: Option<String>) -> Option<Seq<char>> {
    match o {
        Some(s) => Some(s@),
        None => None,
    }
}

/// What a script plan for `server` holds: the script, written as
/// `{install_dir}/{prefix}_{app_id}.txt`, run by the SteamCMD binary with
/// `+runscript {path}` from the SteamCMD directory, titled `{verb} {app_id}: {name}`.
pub open spec fn script_plan_matches(
    plan: ScriptPlan,
    server: Model,
    prefix: Seq<char>,
    verb: Seq<char>,
    user: Option<Seq<char>>,
    pass: Option<Seq<char>>,
    steamcmd_binary: Seq<char>,
    steamcmd_dir: Seq<char>,
) -> bool {
    let app = record_app_id(server);
    let path = path_join(server.install_dir@, prefix + "_"@ + decimal(app as nat) + ".txt"@);
    &&& plan.script@ == install_script(
        "linux"@,
        app,
        server.install_dir@,
        server.platform@,
        opt_string_view(server.server_mod),
        opt_string_view(server.beta_branch),
        login_for(server, user),
        login_for(server, pass),
    )
    &&& plan.script_path@ == path
    &&& plan.launch.command@ == steamcmd_binary
    &&& plan.launch.args.deep_view() == seq!["+runscript"@, path]
    &&& plan.launch.working_dir.deep_view() == Some(steamcmd_dir)
    &&& plan.launch.title.deep_view() == Some(verb + " "@ + decimal(app as nat) + ": "@ + server.name@)
    &&& plan.launch.server_id == Some(server.id as i64)
}

/// An install or update run belongs to the server it was built for: whatever
/// the script, paths and credentials, a plan for `server` is launched under
/// `server`'s id, so the run is listed with that server and found when it stops.
pub proof fn lemma_plans_belong_to_their_server(
    plan: ScriptPlan,
    server: Model,
    prefix: Seq<char>,
    verb: Seq<char>,
    user: Option<Seq<char>>,
    pass: Option<Seq<char>>,
    steamcmd_binary: Seq<char>,
    steamcmd_dir: Seq<char>,
)
    requires
        script_plan_matches(plan, server, prefix, verb, user, pass, steamcmd_binary, steamcmd_dir),
    ensures
        plan.launch.server_id == Some(server.id as i64),
{
}

fn opt_as_str<'a>(o: &'a Option<String>) -> (r: Option<&'a str>)
    ensures
        opt_view(r) == opt_string_view(*o),
{
    match o {
        Some(s) => Some(s.as_str()),
        None => None,
    }
}

fn script_plan(
    server: &Model,
    prefix: &str,
    verb: &str,
    steam_username: Option<&str>,
    steam_password: Option<&str>,
    steamcmd_binary: &str,
    steamcmd_dir: &str,
) -> (plan: ScriptPlan)
    ensures
        script_plan_matches(
            plan,
            *server,
            prefix@,
            verb@,
            opt_view(steam_username),
            opt_view(steam_password),
            steamcmd_binary@,
            steamcmd_dir@,
        ),
        plan.launch.server_id == Some(server.id as i64),
{
    let app_id = server.app_id_u32();
    let (user, pass) = if server.use_steam_login {
        (steam_username, steam_password)
    } else {
        (None, None)
    };
    let script = GameServerInstaller::build_install_script(
        app_id,
        server.install_dir.as_str(),
        server.platform.as_str(),
        opt_as_str(&server.server_mod),
        opt_as_str(&server.beta_branch),
        user,
        pass,
    );
    let app_text = decimal_string(app_id as u64);
    let mut file_name = cat(prefix, "_");
    file_name.append(app_text.as_str());
    file_name.append(".txt");
    let script_path = join_path(server.install_dir.as_str(), file_name.as_str());
    let mut args: Vec<String> = Vec::new();
    args.push("+runscript".to_owned());
    args.push(script_path.clone());
    assert(args.deep_view() =~= seq!["+runscript"@, script_path@]);
    let mut title = cat(verb, " ");
    title.append(app_text.as_str());
    title.append(": ");
    title.append(server.name.as_str());
    ScriptPlan {
        script_path,
        script,
        launch: LaunchPlan {
            command: steamcmd_binary.to_owned(),
            args,
            working_dir: Some(steamcmd_dir.to_owned()),
            title: Some(title),
            server_id: Some(server.id as i64),
        },
    }
}

impl GameServerInstaller {
    /// The install plan for `server`: script `install_{app_id}.txt`, titled
    /// `Install {app_id}: {name}`. The Steam credentials are used only when the server
    /// is configured for Steam login.
    pub fn install_plan(
        server: &Model,
        steam_username: Option<&str>,
        steam_password: Option<&str>,
        steamcmd_binary: &str,
        steamcmd_dir: &str,
    ) -> (plan: ScriptPlan)
        ensures
            script_plan_matches(
                plan,
                *server,
                "install"@,
                "Install"@,
                opt_view(steam_username),
                opt_view(steam_password),
                steamcmd_binary@,
                steamcmd_dir@,
            ),
            plan.launch.server_id == Some(server.id as i64),
    {
        script_plan(server, "install", "Install", steam_username, steam_password, steamcmd_binary, steamcmd_dir)
    }

    /// The update plan for `server`: script `update_{app_id}.txt`, titled
    /// `Update {app_id}: {name}`.
    pub fn update_plan(
        server: &Model,
        steam_username: Option<&str>,
        steam_password: Option<&str>,
        steamcmd_binary: &str,
        steamcmd_dir: &str,
    ) -> (plan: ScriptPlan)
        ensures
            script_plan_matches(
                plan,
                *server,
                "update"@,
                "Update"@,
                opt_view(steam_username),
                opt_view(steam_password),
                steamcmd_binary@,
                steamcmd_dir@,
            ),
            plan.launch.server_id == Some(server.id as i64),
    {
        script_plan(server, "update", "Update", steam_username, steam_password, steamcmd_binary, steamcmd_dir)
    }

    /// The launch that starts `server`: its boot script through `/bin/sh -c` when it
    /// has one, else the server executable found in its install directory (`executable`,
    /// as [`GameServerInstaller::find_server_executable`] reported it), both from the
    /// install directory and titled `Start {name}`; with neither, an error.
    pub fn start_plan(server: &Model, executable: Option<String>) -> (r: Result<LaunchPlan, String>)
        ensures
            match r {
                Ok(plan) => {
                    &&& plan.working_dir.deep_view() == Some(server.install_dir@)
                    &&& plan.title.deep_view() == Some("Start "@ + server.name@)
                    &&& plan.server_id == Some(server.id as i64)
                    &&& match server.boot_script {
                        Some(script) => plan.command@ == "/bin/sh"@ && plan.args.deep_view()
                            == seq!["-c"@, script@],
                        None => executable matches Some(exe) && plan.command@ == exe@
                            && plan.args@.len() == 0,
                    }
                },
                Err(msg) => server.boot_script is None && executable is None && msg@
                    == "no boot script configured and no server executable found"@,
            },
    {
        let title = cat("Start ", server.name.as_str());
        match &server.boot_script {
            Some(script) => {
                let mut args: Vec<String> = Vec::new();
                args.push("-c".to_owned());
                args.push(script.clone());
                assert(args.deep_view() =~= seq!["-c"@, script@]);
                Ok(
                    LaunchPlan {
                        command: "/bin/sh".to_owned(),
                        args,
                        working_dir: Some(server.install_dir.clone()),
                        title: Some(title),
                        server_id: Some(server.id as i64),
                    },
                )
            },
            None => match executable {
                Some(exe) => Ok(
                    LaunchPlan {
                        command: exe,
                        args: Vec::new(),
                        working_dir: Some(server.install_dir.clone()),
                        title: Some(title),
                        server_id: Some(server.id as i64),
                    },
                ),
                None => Err("no boot script configured and no server executable found".to_owned()),
            },
        }
    }

    /// Whether starting `server` goes ahead: not when a process of it is alive, nor
    /// while it is installing.
    pub fn should_start(server: &Model, alive: bool) -> (r: bool)
        ensures
            r == (!alive && ServerStatus::parsed(server.status@) != ServerStatus::Installing),
    {
        !alive && server.status() != ServerStatus::Installing
    }
}

/// Whether a file exists at `path` (`Path::exists`). The answer depends on the disk
/// at the moment of the call; nothing is claimed of it.
#[verifier::external_body]
pub(crate) fn path_exists(path: &str) -> bool {
    std::path::Path::new(path).exists()
}

/// The names the installer probes for a server executable, in order.
pub open spec fn installer_candidates() -> Seq<Seq<char>> {
    seq!["srcds_run"@, "srcds"@, "hl_linux"@, "hlds_run"@, "server"@, "game-server"@]
}

fn installer_candidate_list() -> (r: Vec<String>)
    ensures
        r.deep_view() == installer_candidates(),
{
    let mut r: Vec<String> = Vec::new();
    r.push("srcds_run".to_owned());
    r.push("srcds".to_owned());
    r.push("hl_linux".to_owned());
    r.push("hlds_run".to_owned());
    r.push("server".to_owned());
    r.push("game-server".to_owned());
    assert(r.deep_view() =~= installer_candidates());
    r
}

/// The position of the first `true` in `found` (its length when there is none).
pub open spec fn first_true(found: Seq<bool>) -> int
    decreases found.len(),
{
    if found.len() == 0 {
        0
    } else if found[0] {
        0
    } else {
        1 + first_true(found.drop_first())
    }
}

proof fn lemma_first_true_push_false(found: Seq<bool>)
    requires
        first_true(found) == found.len(),
    ensures
        first_true(found.push(false)) == found.len() + 1,
    decreases found.len(),
{
    assert(found.push(false)[0] == if found.len() > 0 { found[0] } else { false });
    if found.len() > 0 {
        assert(!found[0]);
        assert(found.push(false).drop_first() =~= found.drop_first().push(false));
        assert(first_true(found) == 1 + first_true(found.drop_first()));
        lemma_first_true_push_false(found.drop_first());
        assert(first_true(found.push(false)) == 1 + first_true(found.push(false).drop_first()));
    } else {
        assert(found.push(false).drop_first() =~= Seq::<bool>::empty());
        assert(first_true(Seq::<bool>::empty()) == 0);
        assert(first_true(found.push(false)) == 1 + first_true(found.push(false).drop_first()));
    }
}

proof fn lemma_first_true_bounds(found: Seq<bool>)
    ensures
        0 <= first_true(found) <= found.len(),
    decreases found.len(),
{
    if found.len() > 0 {
        lemma_first_true_bounds(found.drop_first());
    }
}

proof fn lemma_first_true_push_true(found: Seq<bool>)
    requires
        first_true(found) == found.len(),
    ensures
        first_true(found.push(true)) == found.len(),
    decreases found.len(),
{
    if found.len() > 0 {
        assert(found.push(true).drop_first() =~= found.drop_first().push(true));
        lemma_first_true_push_true(found.drop_first());
    }
}

/// The first candidate that exists wins, and only a candidate that exists:
/// when the probes `found` report some candidate `k` existing, the chosen
/// position is at or before `k`, its probe reported it existing, and every
/// candidate before it was reported missing (so [`pick_first`] gives that
/// candidate joined onto the directory); when none is reported, none is chosen.
pub proof fn lemma_first_existing_wins(found: Seq<bool>)
    ensures
        0 <= first_true(found) <= found.len(),
        forall|j: int| 0 <= j < first_true(found) ==> !found[j],
        first_true(found) < found.len() ==> found[first_true(found)],
        (exists|k: int| 0 <= k < found.len() && found[k]) ==> first_true(found) < found.len(),
    decreases found.len(),
{
    if found.len() > 0 {
        lemma_first_existing_wins(found.drop_first());
        if !found[0] {
            assert forall|j: int| 0 <= j < first_true(found) implies !found[j] by {
                if j > 0 {
                    assert(found[j] == found.drop_first()[j - 1]);
                }
            }
            if exists|k: int| 0 <= k < found.len() && found[k] {
                let k = choose|k: int| 0 <= k < found.len() && found[k];
                assert(k > 0);
                assert(found.drop_first()[k - 1]);
            }
            if first_true(found) < found.len() {
                assert(found[first_true(found)] == found.drop_first()[first_true(found) - 1]);
            }
        }
    }
}

/// The path chosen from probes of the candidates in order: `found[k]` tells
/// whether a file exists at candidate `k`; the first one that exists wins.
pub fn pick_first(dir: &str, names: &Vec<String>, found: &Vec<bool>) -> (r: Option<String>)
    requires
        found@.len() <= names@.len(),
    ensures
        first_true(found@) < found@.len() ==> (r matches Some(p)
            && p@ == path_join(dir@, names.deep_view()[first_true(found@)])),
        first_true(found@) >= found@.len() ==> r is None,
{
    let mut i: usize = 0;
    while i < found.len()
        invariant
            i <= found@.len() <= names@.len(),
            forall|k: int| 0 <= k < i ==> !found@[k],
        decreases found@.len() - i,
    {
        if found[i] {
            proof { lemma_first_true_at(found@, i as int); }
            assert(names.deep_view()[i as int] == names@[i as int]@);
            return Some(join_path(dir, names[i].as_str()));
        }
        i = i + 1;
    }
    proof { lemma_first_true_at(found@, found@.len() as int); }
    None
}

proof fn lemma_first_true_at(found: Seq<bool>, i: int)
    requires
        0 <= i <= found.len(),
        forall|k: int| 0 <= k < i ==> !found[k],
        i < found.len() ==> found[i],
    ensures
        first_true(found) == i,
    decreases i,
{
    if i > 0 {
        lemma_first_true_at(found.drop_first(), i - 1);
    }
}

/// The first of `names`, joined onto `dir`, at which a file exists: the
/// candidates are probed in order until one exists. Which exist is the disk's
/// answer; whatever it is, the result is a candidate joined onto `dir`.
pub fn first_existing(dir: &str, names: &Vec<String>) -> (r: Option<String>)
    ensures
        r matches Some(p) ==> exists|k: int|
            0 <= k < names@.len() && p@ == path_join(dir@, #[trigger] names.deep_view()[k]),
{
    let mut found: Vec<bool> = Vec::new();
    let mut i: usize = 0;
    while i < names.len()
        invariant_except_break
            i <= names@.len(),
            found@.len() == i,
            first_true(found@) == i,
        ensures
            found@.len() <= names@.len(),
        decreases names@.len() - i,
    {
        let p = join_path(dir, names[i].as_str());
        if path_exists(p.as_str()) {
            proof { lemma_first_true_push_true(found@); }
            found.push(true);
            break;
        }
        proof { lemma_first_true_push_false(found@); }
        found.push(false);
        i = i + 1;
    }
    let r = pick_first(dir, names, &found);
    proof {
        lemma_first_true_bounds(found@);
    }
    r
}

impl GameServerInstaller {
    /// Attempt to find a server executable in the install directory, probing the
    /// common server binary names in order.
    pub fn find_server_executable(install_dir: &str) -> (r: Option<String>)
        ensures
            r matches Some(p) ==> exists|k: int|
                0 <= k < installer_candidates().len() && p@ == path_join(
                    install_dir@,
                    #[trigger] installer_candidates()[k],
                ),
    {
        let names = installer_candidate_list();
        first_existing(install_dir, &names)
    }
}

/// Errors of installing, updating and starting game servers, each with the
/// message of its cause.
#[derive(Debug)]
pub enum GameServerError {
    SteamCmdNotInstalled,
    CreateDir(String),
    WriteScript(String),
    Execute(String),
    NotFound,
    SteamCredentials(EncryptionError),
}

/// The text of an installer error, as it is shown to users.
pub open spec fn game_server_error_text(e: GameServerError) -> Seq<char> {
    match e {
        GameServerError::SteamCmdNotInstalled => "SteamCMD is not installed"@,
        GameServerError::CreateDir(m) => "failed to create install directory: "@ + m@,
        GameServerError::WriteScript(m) => "failed to write SteamCMD script: "@ + m@,
        GameServerError::Execute(m) => "failed to execute installation: "@ + m@,
        GameServerError::NotFound => "game server not found"@,
        GameServerError::SteamCredentials(c) => "failed to decrypt Steam credentials: "@
            + encryption_error_text(c),
    }
}

impl GameServerError {
    /// The text of the error, as it is shown to users.
    pub fn message(&self) -> (r: String)
        ensures
            r@ == game_server_error_text(*self),
    {
        match self {
            GameServerError::SteamCmdNotInstalled => "SteamCMD is not installed".to_string(),
            GameServerError::CreateDir(m) => cat("failed to create install directory: ", m.as_str()),
            GameServerError::WriteScript(m) => cat("failed to write SteamCMD script: ", m.as_str()),
            GameServerError::Execute(m) => cat("failed to execute installation: ", m.as_str()),
            GameServerError::NotFound => "game server not found".to_string(),
            GameServerError::SteamCredentials(c) => {
                let t = c.message();
                cat("failed to decrypt Steam credentials: ", t.as_str())
            },
        }
    }
}

/// The exit code recorded for a run ended by stopping its server.
pub const STOPPED_EXIT_CODE: i32 = 143;

impl GameServerInstaller {
    /// The records after stopping a server: each of its running runs failed
    /// with exit code 143, and the server stopped (its stored error kept).
    pub fn stop_records(server: &mut Model, running: &mut Vec<RunModel>)
        ensures
            final(server).status@ == ServerStatus::Stopped.text(),
            final(server).last_error == old(server).last_error,
            crate::game_servers::same_except_status_and_error(*final(server), *old(server)),
            final(running)@.len() == old(running)@.len(),
            forall|i: int| 0 <= i < old(running)@.len() ==> {
                let o = #[trigger] old(running)@[i];
                let n = final(running)@[i];
                &&& n.status@ == CommandStatus::Failed.text()
                &&& n.exit_code == Some(STOPPED_EXIT_CODE)
                &&& n.id == o.id && n.pid == o.pid && n.command == o.command
                &&& n.log_path == o.log_path && n.server_id == o.server_id
            },
    {
        let ghost before = running@;
        let mut i: usize = 0;
        while i < running.len()
            invariant
                i <= running@.len(),
                running@.len() == before.len(),
                forall|k: int| 0 <= k < i ==> {
                    let o = #[trigger] before[k];
                    let n = running@[k];
                    &&& n.status@ == CommandStatus::Failed.text()
                    &&& n.exit_code == Some(STOPPED_EXIT_CODE)
                    &&& n.id == o.id && n.pid == o.pid && n.command == o.command
                    &&& n.log_path == o.log_path && n.server_id == o.server_id
                },
                forall|k: int| i <= k < running@.len() ==> running@[k] == before[k],
            decreases running@.len() - i,
        {
            running[i].finish(Some(STOPPED_EXIT_CODE), CommandStatus::Failed);
            i = i + 1;
        }
        server.update_stop();
    }
}

} // verus!
