//! The checks that web forms go through before anything is stored, and the
//! messages the pages answer with.
use vstd::prelude::*;

use crate::errors::StandardError;
use crate::game_servers::{default_install_dir_in, slug, Model};
use crate::templates::bad_request;
use crate::text::{
    cat, clone_opt, contains_text, drop_blank, non_blank, opt_view, parse_u32, parse_unsigned,
    str_contains, str_trim, trim,
};

verus! {

/// The form a game server is created with.
#[derive(Debug, Clone)]
pub struct CreateServerForm {
    pub app_id: String,
    pub name: String,
    pub server_mod: Option<String>,
    pub beta_branch: Option<String>,
    pub steam_username: Option<String>,
    pub steam_password: Option<String>,
    pub use_steam_login: bool,
    pub template_id: Option<i32>,
}

/// Checks the App ID and the name of a new server: the App ID must parse as a
/// `u32` and not be zero, and the trimmed name must not be empty. Gives the App
/// ID and the trimmed name.
pub fn check_server_form(app_id: &str, name: &str) -> (r: Result<(u32, String), StandardError>)
    ensures
        ({
            let id = parse_unsigned(app_id@, u32::MAX as nat);
            &&& id is None ==> (r matches Err(e) && bad_request(e, "Invalid App ID"@))
            &&& id == Some(0nat) ==> (r matches Err(e) && bad_request(e, "App ID cannot be zero"@))
            &&& (id is Some && id != Some(0nat) && trim(name@).len() == 0) ==> (r matches Err(e)
                && bad_request(e, "Name cannot be empty"@))
            &&& id matches Some(n) ==> (n != 0 && trim(name@).len() > 0 ==> (r matches Ok((a, t))
                && a == n && t@ == trim(name@)))
        }),
{
    let id = match parse_u32(app_id) {
        Some(n) => n,
        None => return Err(StandardError::BadRequest("Invalid App ID".to_string())),
    };
    if id == 0 {
        return Err(StandardError::BadRequest("App ID cannot be zero".to_string()));
    }
    let trimmed = str_trim(name);
    if trimmed.as_str().is_empty() {
        return Err(StandardError::BadRequest("Name cannot be empty".to_string()));
    }
    Ok((id, trimmed))
}

/// The Steam login to store with a new server: only when the form asks for a
/// Steam login and gives both a username and a password that are not blank.
/// The username is stored trimmed, the password as it was typed.
pub fn steam_login_to_save(
    use_steam_login: bool,
    username: Option<String>,
    password: Option<String>,
) -> (r: Option<(String, String)>)
    ensures
        ({
            let u = non_blank(opt_view(username));
            let p = non_blank(opt_view(password));
            &&& (use_steam_login && u is Some && p is Some) ==> (r matches Some((su, sp))
                && su@ == trim(u->0) && sp@ == p->0)
            &&& !(use_steam_login && u is Some && p is Some) ==> r is None
        }),
{
    let user = drop_blank(username);
    let pass = drop_blank(password);
    if !use_steam_login {
        return None;
    }
    match (user, pass) {
        (Some(u), Some(p)) => {
            let t = str_trim(u.as_str());
            if t.as_str().is_empty() || p.as_str().is_empty() {
                None
            } else {
                Some((t, p))
            }
        },
        _ => None,
    }
}

/// The message shown when a new server clashes with an existing one.
pub const DUPLICATE_SERVER_MESSAGE: &'static str = "A game server with this name or install directory already exists.";

/// The message shown when a template name is already taken.
pub const DUPLICATE_TEMPLATE_MESSAGE: &'static str = "A template with this name already exists.";

/// The record a refused server form is shown again with: what the form held,
/// under id 0 with an empty platform and status, in the default install
/// directory for its name. An App ID beyond `i32` is refused.
pub fn form_echo_model(app_id: u32, form: &CreateServerForm, home: &str) -> (r: Result<Model, StandardError>)
    ensures
        app_id > i32::MAX ==> (r matches Err(e) && bad_request(e, "App ID out of range"@)),
        app_id <= i32::MAX ==> (r matches Ok(m)
            && m.id == 0
            && m.app_id == app_id as i32
            && m.name == form.name
            && m.install_dir@ == home@ + "/game-smith/games/"@ + slug(form.name@)
            && m.platform@.len() == 0
            && m.status@.len() == 0
            && m.boot_script is None
            && !m.auto_start && !m.auto_restart && !m.auto_update && !m.update_on_start
            && m.restart_schedule is None
            && m.last_error is None
            && m.server_mod == form.server_mod
            && m.beta_branch == form.beta_branch
            && m.use_steam_login == form.use_steam_login
            && m.template_id == form.template_id),
{
    if app_id > 2147483647 {
        return Err(StandardError::BadRequest("App ID out of range".to_string()));
    }
    Ok(Model {
        id: 0,
        app_id: app_id as i32,
        name: form.name.clone(),
        install_dir: default_install_dir_in(home, form.name.as_str()),
        platform: String::new(),
        status: String::new(),
        boot_script: None,
        auto_start: false,
        auto_restart: false,
        auto_update: false,
        update_on_start: false,
        restart_schedule: None,
        last_error: None,
        server_mod: clone_opt(&form.server_mod),
        beta_branch: clone_opt(&form.beta_branch),
        use_steam_login: form.use_steam_login,
        template_id: form.template_id,
    })
}

/// The message of a settings change refused while the server runs.
pub open spec fn running_message() -> Seq<char> {
    "Cannot update settings while server is running. Stop the server first."@
}

/// Settings may only change while no process of the server is alive.
pub fn ensure_stopped(alive: bool) -> (r: Result<(), StandardError>)
    ensures
        !alive ==> r is Ok,
        alive ==> (r matches Err(e) && bad_request(e, running_message())),
{
    if alive {
        Err(StandardError::BadRequest(
            "Cannot update settings while server is running. Stop the server first.".to_string(),
        ))
    } else {
        Ok(())
    }
}

/// Whether a URL-encoded form body sets a checkbox: it holds `{field}=true`.
pub fn form_flag(body: &str, field: &str) -> (r: bool)
    ensures
        r == contains_text(body@, field@ + "=true"@),
{
    let needle = cat(field, "=true");
    str_contains(body, needle.as_str())
}

/// Checks the Steam configuration form: both fields are trimmed and neither
/// may be empty; the username is checked first.
pub fn check_steam_config(username: &str, password: &str) -> (r: Result<(String, String), &'static str>)
    ensures
        trim(username@).len() == 0 ==> (r matches Err(m) && m@ == "Steam username cannot be empty"@),
        trim(username@).len() > 0 && trim(password@).len() == 0 ==> (r matches Err(m)
            && m@ == "Steam password cannot be empty"@),
        trim(username@).len() > 0 && trim(password@).len() > 0 ==> (r matches Ok((u, p))
            && u@ == trim(username@) && p@ == trim(password@)),
{
    let u = str_trim(username);
    let p = str_trim(password);
    if u.as_str().is_empty() {
        return Err("Steam username cannot be empty");
    }
    if p.as_str().is_empty() {
        return Err("Steam password cannot be empty");
    }
    Ok((u, p))
}

/// The message shown after toggling the start-on-login entry: on success the
/// state read back afterwards, on failure the error.
pub fn autostart_toggle_message(result: Result<(), String>, now_enabled: bool) -> (r: String)
    ensures
        result is Ok && now_enabled ==> r@ == "Autostart enabled"@,
        result is Ok && !now_enabled ==> r@ == "Autostart disabled"@,
        result matches Err(e) ==> r@ == "Failed to toggle autostart: "@ + e@,
{
    match result {
        Ok(()) => if now_enabled {
            "Autostart enabled".to_string()
        } else {
            "Autostart disabled".to_string()
        },
        Err(e) => cat("Failed to toggle autostart: ", e.as_str()),
    }
}

} // verus!
