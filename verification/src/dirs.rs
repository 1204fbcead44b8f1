//! Application data directories and the paths derived from them.
use vstd::prelude::*;

use crate::text::{cat, chars_of, str_eq, string_of, substring, has_prefix, str_strip_prefix};

verus! {

/// `base` joined with the path component `comp`, as `Path::join` does on Unix:
/// an absolute component replaces the base; otherwise a `/` separates them unless
/// the base is empty or already ends with one.
pub open spec fn path_join(base: Seq<char>, comp: Seq<char>) -> Seq<char> {
    if comp.len() > 0 && comp[0] == '/' {
        comp
    } else if base.len() == 0 {
        comp
    } else if base.last() == '/' {
        base + comp
    } else {
        base + seq!['/'] + comp
    }
}

/// `Path::join` on Unix.
pub fn join_path(base: &str, comp: &str) -> (r: String)
    ensures
        r@ == path_join(base@, comp@),
{
    let b = chars_of(base);
    let c = chars_of(comp);
    if c.len() > 0 && c[0] == '/' {
        string_of(c.as_slice())
    } else if b.len() == 0 {
        string_of(c.as_slice())
    } else if b[b.len() - 1] == '/' {
        cat(base, comp)
    } else {
        let mut r = cat(base, "/");
        r.append(comp);
        proof { reveal_strlit("/"); }
        r
    }
}

/// Resolved application data directories.
#[derive(Debug, Clone)]
pub struct AppDirs {
    /// The resolved XDG data home directory.
    pub data_home: String,
    /// Application-specific directory under `data_home`.
    pub app_dir: String,
    /// Directory for log files.
    pub logs_dir: String,
    /// Path to the SQLite database file.
    pub db_path: String,
}

/// The application directory under a data home.
pub open spec fn app_dir_of(data_home: Seq<char>) -> Seq<char> {
    path_join(data_home, "game-smith"@)
}

impl AppDirs {
    /// Derive all sub-paths from the data home directory.
    pub fn new(data_home: String) -> (r: AppDirs)
        ensures
            r.data_home@ == data_home@,
            r.app_dir@ == app_dir_of(data_home@),
            r.logs_dir@ == path_join(app_dir_of(data_home@), "logs"@),
            r.db_path@ == path_join(app_dir_of(data_home@), "game-smith.sqlite"@),
    {
        let app_dir = join_path(data_home.as_str(), "game-smith");
        let logs_dir = join_path(app_dir.as_str(), "logs");
        let db_path = join_path(app_dir.as_str(), "game-smith.sqlite");
        AppDirs { data_home, app_dir, logs_dir, db_path }
    }

    /// The SQLite connection URI for the database: `sqlite://{db_path}?mode=rwc`.
    pub fn db_uri(&self) -> (r: String)
        ensures
            r@ == "sqlite://"@ + self.db_path@ + "?mode=rwc"@,
    {
        let mut r = cat("sqlite://", self.db_path.as_str());
        r.append("?mode=rwc");
        r
    }
}

/// The data home: `$XDG_DATA_HOME` when set, else `$HOME/.local/share`
/// (with an empty `HOME` when that is unset too).
pub fn data_home_from(xdg_data_home: Option<String>, home: Option<String>) -> (r: String)
    ensures
        r@ == (match xdg_data_home {
            Some(x) => x@,
            None => (match home {
                Some(h) => h@,
                None => seq![],
            }) + "/.local/share"@,
        }),
{
    match xdg_data_home {
        Some(x) => x,
        None => {
            let h = match home {
                Some(h) => h,
                None => String::new(),
            };
            cat(h.as_str(), "/.local/share")
        },
    }
}

/// The part of `s` before its first `?` (all of `s` when it has none).
pub open spec fn before_query(s: Seq<char>) -> Seq<char>
    decreases s.len(),
{
    if s.len() == 0 {
        s
    } else if s[0] == '?' {
        seq![]
    } else {
        seq![s[0]] + before_query(s.drop_first())
    }
}

/// The database file path a SQLite URI names: the text after `sqlite://` (or the
/// whole URI without that prefix), up to the first `?`.
pub open spec fn uri_file_path(uri: Seq<char>) -> Seq<char> {
    let rest = if has_prefix(uri, "sqlite://"@) {
        uri.skip("sqlite://"@.len() as int)
    } else {
        uri
    };
    before_query(rest)
}

proof fn lemma_before_query_index(s: Seq<char>, i: int)
    requires
        0 <= i <= s.len(),
        forall|j: int| 0 <= j < i ==> s[j] != '?',
        i == s.len() || s[i] == '?',
    ensures
        before_query(s) == s.take(i),
    decreases s.len(),
{
    if s.len() > 0 && s[0] != '?' {
        lemma_before_query_index(s.drop_first(), i - 1);
        assert(seq![s[0]] + s.drop_first().take(i - 1) =~= s.take(i));
    } else if s.len() > 0 {
        assert(s.take(i) =~= seq![]);
    } else {
        assert(s.take(i) =~= s);
    }
}

/// The database file path named by a SQLite URI.
pub fn db_file_path(uri: &str) -> (r: String)
    ensures
        r@ == uri_file_path(uri@),
{
    let rest = match str_strip_prefix(uri, "sqlite://") {
        Some(r) => r,
        None => uri.to_owned(),
    };
    let v = chars_of(rest.as_str());
    let mut i: usize = 0;
    while i < v.len() && v[i] != '?'
        invariant
            i <= v@.len(),
            forall|j: int| 0 <= j < i ==> v@[j] != '?',
        decreases v@.len() - i,
    {
        i = i + 1;
    }
    proof { lemma_before_query_index(v@, i as int); }
    let r = substring(v.as_slice(), 0, i);
    assert(v@.subrange(0, i as int) =~= v@.take(i as int));
    r
}

/// Whether the database actually opened (`file`, as SQLite reports it) differs from
/// the expected one; an empty report is not a mismatch.
pub fn db_location_mismatch(file: &str, expected_path: &str) -> (r: bool)
    ensures
        r == (file@.len() > 0 && file@ != expected_path@),
{
    !file.is_empty() && !str_eq(file, expected_path)
}

/// The validator reads back from the connection URI exactly the database path the
/// directories name, whenever that path holds no `?`.
pub proof fn lemma_db_uri_names_db_path(db_path: Seq<char>)
    requires
        !db_path.contains('?'),
    ensures
        uri_file_path("sqlite://"@ + db_path + "?mode=rwc"@) == db_path,
{
    reveal_strlit("sqlite://");
    reveal_strlit("?mode=rwc");
    let uri = "sqlite://"@ + db_path + "?mode=rwc"@;
    assert(uri.take(9) =~= "sqlite://"@);
    let rest = uri.skip(9);
    assert(rest =~= db_path + "?mode=rwc"@);
    assert forall|j: int| 0 <= j < db_path.len() implies rest[j] != '?' by {
        assert(rest[j] == db_path[j]);
        if db_path[j] == '?' {
            assert(db_path.contains('?'));
        }
    }
    lemma_before_query_index(rest, db_path.len() as int);
    assert(rest.take(db_path.len() as int) =~= db_path);
}

} // verus!
