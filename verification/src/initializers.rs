//! The steps run around application boot, each under its name, with the
//! decisions they take.
use vstd::prelude::*;

use crate::dirs::{db_file_path, db_location_mismatch, uri_file_path};

verus! {

/// Generates the local secret key file at boot when it does not exist.
pub struct SecretKeyInitializer;

impl SecretKeyInitializer {
    /// The step's name.
    pub fn name(&self) -> (r: &'static str)
        ensures
            r@ == "secret-key-init"@,
    {
        "secret-key-init"
    }

    /// Whether a key is generated: not under test, and only when none exists.
    pub fn needs_key(&self, testing: bool, key_exists: bool) -> (r: bool)
        ensures
            r == (!testing && !key_exists),
    {
        !testing && !key_exists
    }
}

/// Warns when the database connection points at another file than the one
/// the data directories name.
pub struct DbValidator;

impl DbValidator {
    /// The step's name.
    pub fn name(&self) -> (r: &'static str)
        ensures
            r@ == "db-connection-validator"@,
    {
        "db-connection-validator"
    }

    /// Whether to warn, given the canonical connection URI and the file SQLite
    /// reports as open (empty when it reports none); never under test.
    pub fn should_warn(&self, testing: bool, canonical_uri: &str, opened_file: &str) -> (r: bool)
        ensures
            r == (!testing && opened_file@.len() > 0 && opened_file@ != uri_file_path(canonical_uri@)),
    {
        if testing {
            return false;
        }
        let expected = db_file_path(canonical_uri);
        db_location_mismatch(opened_file, expected.as_str())
    }
}

/// Reports at boot whether the SteamCMD binary is installed.
pub struct SteamCmdInstaller;

impl SteamCmdInstaller {
    /// The step's name.
    pub fn name(&self) -> (r: &'static str)
        ensures
            r@ == "steamcmd-check"@,
    {
        "steamcmd-check"
    }
}

/// Serves the embedded static files.
pub struct EmbeddedStatic;

impl EmbeddedStatic {
    /// The step's name.
    pub fn name(&self) -> (r: &'static str)
        ensures
            r@ == "embedded-static"@,
    {
        "embedded-static"
    }
}

/// Loads the embedded view templates and translations.
pub struct EmbeddedI18n;

impl EmbeddedI18n {
    /// The step's name.
    pub fn name(&self) -> (r: &'static str)
        ensures
            r@ == "embedded-i18n"@,
    {
        "embedded-i18n"
    }
}

/// Serves the live command logs over a socket.
pub struct CommandLogInitializer;

impl CommandLogInitializer {
    /// The step's name.
    pub fn name(&self) -> (r: &'static str)
        ensures
            r@ == "command-log-socket"@,
    {
        "command-log-socket"
    }
}

} // verus!
