//! Game server records and the text rules applied to their fields.
use vstd::prelude::*;

use crate::status::ServerStatus;
use crate::text::{alphanumeric, cat, chars_of, is_alphanumeric, join, join_strings, lowercase, push_char, string_of, to_lowercase};

verus! {

/// A persisted game server record, holding the columns the logic reads.
#[derive(Debug, Clone)]
pub struct Model {
    pub id: i32,
    pub app_id: i32,
    pub name: String,
    pub install_dir: String,
    pub platform: String,
    pub status: String,
    pub boot_script: Option<String>,
    pub auto_start: bool,
    pub auto_restart: bool,
    pub auto_update: bool,
    pub update_on_start: bool,
    pub restart_schedule: Option<String>,
    pub last_error: Option<String>,
    pub server_mod: Option<String>,
    pub beta_branch: Option<String>,
    pub use_steam_login: bool,
    pub template_id: Option<i32>,
}

impl Model {
    /// The Steam App ID as an unsigned value; a negative stored value reads as 0.
    pub fn app_id_u32(&self) -> (r: u32)
        ensures
            r == (if self.app_id >= 0 { self.app_id as u32 } else { 0u32 }),
    {
        if self.app_id >= 0 {
            self.app_id as u32
        } else {
            0
        }
    }

    /// The stored status as a typed value.
    pub fn status(&self) -> (r: ServerStatus)
        ensures
            r == ServerStatus::parsed(self.status@),
    {
        ServerStatus::parse(self.status.as_str())
    }

    /// Whether the stored status is `Running`.
    pub fn is_running(&self) -> (r: bool)
        ensures
            r == (ServerStatus::parsed(self.status@) == ServerStatus::Running),
    {
        self.status() == ServerStatus::Running
    }

    /// Whether the stored status is `Installed`.
    pub fn is_installed(&self) -> (r: bool)
        ensures
            r == (ServerStatus::parsed(self.status@) == ServerStatus::Installed),
    {
        self.status() == ServerStatus::Installed
    }

    /// Whether the stored status is `Error`.
    pub fn is_error(&self) -> (r: bool)
        ensures
            r == (ServerStatus::parsed(self.status@) == ServerStatus::Error),
    {
        self.status() == ServerStatus::Error
    }
}

/// The character a slug keeps for `c`: itself when alphanumeric or a hyphen,
/// otherwise a hyphen.
pub open spec fn slug_char(c: char) -> char {
    if alphanumeric(c) || c == '-' {
        c
    } else {
        '-'
    }
}

/// Left-to-right scan that cuts text at the characters a slug turns into hyphens:
/// the finished pieces and the piece under construction.
pub open spec fn slug_scan(s: Seq<char>) -> (Seq<Seq<char>>, Seq<char>)
    decreases s.len(),
{
    if s.len() == 0 {
        (seq![], seq![])
    } else {
        let (done, cur) = slug_scan(s.drop_last());
        let c = slug_char(s.last());
        if c == '-' {
            if cur.len() == 0 {
                (done, cur)
            } else {
                (done.push(cur), seq![])
            }
        } else {
            (done, cur.push(c))
        }
    }
}

/// The non-empty hyphen-free pieces of `s` after mapping through `slug_char`.
pub open spec fn slug_pieces(s: Seq<char>) -> Seq<Seq<char>> {
    let (done, cur) = slug_scan(s);
    if cur.len() == 0 {
        done
    } else {
        done.push(cur)
    }
}

/// The slug of already lowercased text: characters that are neither
/// alphanumeric nor a hyphen turned into hyphens, and runs of hyphens
/// collapsed, with none at either end.
pub open spec fn slug_of_lower(lower: Seq<char>) -> Seq<char> {
    join(slug_pieces(lower), "-"@)
}

/// The slug of a display name: lowercased, non-alphanumeric characters turned into
/// hyphens, and runs of hyphens collapsed, with none at either end.
pub open spec fn slug(name: Seq<char>) -> Seq<char> {
    slug_of_lower(lowercase(name))
}

/// The slug of text that is already lowercased (the second half of
/// [`slugify`]).
pub fn slugify_lowercased(lower: &str) -> (r: String)
    ensures
        r@ == slug_of_lower(lower@),
{
    let v = chars_of(lower);
    let mut done: Vec<String> = Vec::new();
    let mut cur: Vec<char> = Vec::new();
    for i in 0..v.len()
        invariant
            (done.deep_view(), cur@) == slug_scan(v@.take(i as int)),
    {
        assert(v@.take(i + 1).drop_last() =~= v@.take(i as int));
        let c0 = v[i];
        let c = if is_alphanumeric(c0) || c0 == '-' { c0 } else { '-' };
        if c == '-' {
            if cur.len() > 0 {
                let w = string_of(cur.as_slice());
                let ghost before = done.deep_view();
                done.push(w);
                assert(done.deep_view() =~= before.push(cur@));
                cur = Vec::new();
            }
        } else {
            cur.push(c);
        }
    }
    assert(v@.take(v@.len() as int) =~= v@);
    if cur.len() > 0 {
        let w = string_of(cur.as_slice());
        let ghost before = done.deep_view();
        done.push(w);
        assert(done.deep_view() =~= before.push(cur@));
    }
    join_strings(&done, "-")
}

/// Generate a URL-safe slug from a display name.
pub fn slugify(name: &str) -> (r: String)
    ensures
        r@ == slug(name@),
{
    let lower = to_lowercase(name);
    slugify_lowercased(lower.as_str())
}

/// Every piece is non-empty and contains no hyphen.
pub open spec fn dash_free_pieces(ps: Seq<Seq<char>>) -> bool {
    forall|k: int| 0 <= k < ps.len() ==> ps[k].len() > 0 && !ps[k].contains('-')
}

/// Hyphens occur only strictly inside `s`, never two in a row.
pub open spec fn well_hyphenated(s: Seq<char>) -> bool {
    forall|i: int|
        0 <= i < s.len() && #[trigger] s[i] == '-' ==> 0 < i < s.len() - 1 && s[i + 1] != '-'
}

proof fn lemma_slug_scan_pieces(s: Seq<char>)
    ensures
        dash_free_pieces(slug_scan(s).0),
        !slug_scan(s).1.contains('-'),
    decreases s.len(),
{
    if s.len() > 0 {
        lemma_slug_scan_pieces(s.drop_last());
        let (done, cur) = slug_scan(s.drop_last());
        let c = slug_char(s.last());
        if c != '-' {
            assert forall|j: int| 0 <= j < cur.push(c).len() implies cur.push(c)[j] != '-' by {
                if j < cur.len() {
                    assert(cur.push(c)[j] == cur[j]);
                }
            }
        }
    }
}

proof fn lemma_join_well_hyphenated(ps: Seq<Seq<char>>)
    requires
        dash_free_pieces(ps),
    ensures
        well_hyphenated(join(ps, "-"@)),
        ps.len() > 0 ==> join(ps, "-"@).len() > 0 && join(ps, "-"@).last() != '-' && join(ps,
            "-"@)[0] != '-',
    decreases ps.len(),
{
    reveal_strlit("-");
    if ps.len() == 1 {
        assert(!ps[0].contains('-'));
        assert forall|i: int| 0 <= i < ps[0].len() implies ps[0][i] != '-' by {
            if ps[0][i] == '-' {
                assert(ps[0].contains('-'));
            }
        }
    } else if ps.len() > 1 {
        let init = ps.drop_last();
        assert(dash_free_pieces(init)) by {
            assert forall|k: int| 0 <= k < init.len() implies init[k].len() > 0 && !init[k].contains(
                '-',
            ) by {
                assert(init[k] == ps[k]);
            }
        }
        lemma_join_well_hyphenated(init);
        let a = join(init, "-"@);
        let b = ps.last();
        assert(b.len() > 0 && !b.contains('-'));
        let r = a + "-"@ + b;
        assert(join(ps, "-"@) == r);
        assert forall|i: int| 0 <= i < r.len() && #[trigger] r[i] == '-' implies 0 < i < r.len() - 1 && r[i
            + 1] != '-' by {
            if i < a.len() {
                assert(r[i] == a[i]);
                if i + 1 < a.len() {
                    assert(r[i + 1] == a[i + 1]);
                }
            } else if i == a.len() {
                assert(r[i + 1] == b[0]);
                if b[0] == '-' {
                    assert(b.contains('-'));
                }
            } else {
                assert(r[i] == b[i - a.len() - 1]);
                assert(b.contains('-'));
            }
        }
        assert(r.last() == b.last());
        if b.last() == '-' {
            assert(b.contains('-'));
        }
        assert(r[0] == a[0]);
    }
}

/// A slug never starts or ends with a hyphen and never holds two hyphens in a row.
pub proof fn lemma_slug_well_hyphenated(name: Seq<char>)
    ensures
        well_hyphenated(slug(name)),
{
    let s = lowercase(name);
    lemma_slug_scan_pieces(s);
    let (done, cur) = slug_scan(s);
    let ps = slug_pieces(s);
    assert(dash_free_pieces(ps)) by {
        if cur.len() > 0 {
            assert forall|k: int| 0 <= k < ps.len() implies ps[k].len() > 0 && !ps[k].contains(
                '-',
            ) by {
                if k < done.len() {
                    assert(ps[k] == done[k]);
                }
            }
        }
    }
    lemma_join_well_hyphenated(ps);
}

/// A character a slug may hold: alphanumeric or a hyphen.
pub open spec fn slug_symbol(c: char) -> bool {
    alphanumeric(c) || c == '-'
}

/// Every character of every piece is alphanumeric.
pub open spec fn alphanumeric_pieces(ps: Seq<Seq<char>>) -> bool {
    forall|k: int, j: int| 0 <= k < ps.len() && 0 <= j < ps[k].len() ==> alphanumeric(#[trigger] ps[k][j])
}

proof fn lemma_slug_scan_alphanumeric(s: Seq<char>)
    ensures
        alphanumeric_pieces(slug_scan(s).0),
        forall|j: int| 0 <= j < slug_scan(s).1.len() ==> alphanumeric(#[trigger] slug_scan(s).1[j]),
    decreases s.len(),
{
    if s.len() > 0 {
        lemma_slug_scan_alphanumeric(s.drop_last());
        let (done, cur) = slug_scan(s.drop_last());
        let c = slug_char(s.last());
        if c == '-' {
            if cur.len() > 0 {
                let d2 = done.push(cur);
                assert forall|k: int, j: int| 0 <= k < d2.len() && 0 <= j < d2[k].len() implies alphanumeric(
                    #[trigger] d2[k][j],
                ) by {
                    if k < done.len() {
                        assert(d2[k] == done[k]);
                    }
                }
            }
        } else {
            let c2 = cur.push(c);
            assert forall|j: int| 0 <= j < c2.len() implies alphanumeric(#[trigger] c2[j]) by {
                if j < cur.len() {
                    assert(c2[j] == cur[j]);
                }
            }
        }
    }
}

proof fn lemma_join_slug_symbols(ps: Seq<Seq<char>>)
    requires
        alphanumeric_pieces(ps),
    ensures
        forall|i: int| 0 <= i < join(ps, "-"@).len() ==> slug_symbol(#[trigger] join(ps, "-"@)[i]),
    decreases ps.len(),
{
    reveal_strlit("-");
    if ps.len() == 1 {
        assert forall|i: int| 0 <= i < join(ps, "-"@).len() implies slug_symbol(#[trigger] join(ps, "-"@)[i]) by {
            assert(alphanumeric(ps[0][i]));
        }
    } else if ps.len() > 1 {
        let init = ps.drop_last();
        assert(alphanumeric_pieces(init)) by {
            assert forall|k: int, j: int| 0 <= k < init.len() && 0 <= j < init[k].len() implies alphanumeric(
                #[trigger] init[k][j],
            ) by {
                assert(init[k] == ps[k]);
            }
        }
        lemma_join_slug_symbols(init);
        let a = join(init, "-"@);
        let b = ps.last();
        let r = a + "-"@ + b;
        assert(join(ps, "-"@) == r);
        assert forall|i: int| 0 <= i < r.len() implies slug_symbol(#[trigger] r[i]) by {
            if i < a.len() {
                assert(r[i] == a[i]);
            } else if i > a.len() {
                assert(r[i] == b[i - a.len() - 1]);
                assert(alphanumeric(ps[ps.len() - 1][i - a.len() - 1]));
            }
        }
    }
}

/// Every character of a slug is alphanumeric (in the sense of
/// `char::is_alphanumeric`) or a hyphen.
pub proof fn lemma_slug_symbols(name: Seq<char>)
    ensures
        forall|i: int| 0 <= i < slug(name).len() ==> slug_symbol(#[trigger] slug(name)[i]),
{
    let s = lowercase(name);
    lemma_slug_scan_alphanumeric(s);
    let (done, cur) = slug_scan(s);
    let ps = slug_pieces(s);
    assert(alphanumeric_pieces(ps)) by {
        if cur.len() > 0 {
            assert forall|k: int, j: int| 0 <= k < ps.len() && 0 <= j < ps[k].len() implies alphanumeric(
                #[trigger] ps[k][j],
            ) by {
                if k < done.len() {
                    assert(ps[k] == done[k]);
                }
            }
        }
    }
    lemma_join_slug_symbols(ps);
}

/// A character a shell script may keep: printable text, LF, or TAB. Other C0
/// controls (0x00–0x1F) and DEL (0x7F) are unsafe.
pub open spec fn script_safe(c: char) -> bool {
    let u = c as u32;
    if u <= 0x1F {
        c == '\n' || c == '\t'
    } else {
        u != 0x7F
    }
}

/// The safe characters of `s`, in order.
pub open spec fn keep_safe(s: Seq<char>) -> Seq<char>
    decreases s.len(),
{
    if s.len() == 0 {
        seq![]
    } else {
        let r = keep_safe(s.drop_last());
        if script_safe(s.last()) {
            r.push(s.last())
        } else {
            r
        }
    }
}

fn is_script_safe_char(c: char) -> (r: bool)
    ensures
        r == script_safe(c),
{
    let cp = c as u32;
    if cp <= 0x1F {
        return c == '\n' || c == '\t';
    }
    if cp == 0x7F {
        return false;
    }
    true
}

/// Strip control characters from a boot script, keeping printable text, LF and TAB.
pub fn sanitize_boot_script(script: &str) -> (r: String)
    ensures
        r@ == keep_safe(script@),
{
    let v = chars_of(script);
    let mut out = String::new();
    for i in 0..v.len()
        invariant
            out@ == keep_safe(v@.take(i as int)),
    {
        assert(v@.take(i + 1).drop_last() =~= v@.take(i as int));
        if is_script_safe_char(v[i]) {
            push_char(&mut out, v[i]);
        }
    }
    assert(v@.take(v@.len() as int) =~= v@);
    out
}

/// A sanitized script holds only safe characters.
pub proof fn lemma_sanitized_is_safe(s: Seq<char>)
    ensures
        forall|i: int| 0 <= i < keep_safe(s).len() ==> script_safe(#[trigger] keep_safe(s)[i]),
    decreases s.len(),
{
    if s.len() > 0 {
        lemma_sanitized_is_safe(s.drop_last());
        let r = keep_safe(s.drop_last());
        if script_safe(s.last()) {
            assert forall|i: int| 0 <= i < r.push(s.last()).len() implies script_safe(
                r.push(s.last())[i],
            ) by {
                if i < r.len() {
                    assert(r.push(s.last())[i] == r[i]);
                }
            }
        }
    }
}

/// Sanitizing twice gives the same script as sanitizing once.
pub proof fn lemma_sanitize_idempotent(s: Seq<char>)
    ensures
        keep_safe(keep_safe(s)) == keep_safe(s),
    decreases s.len(),
{
    if s.len() > 0 {
        lemma_sanitize_idempotent(s.drop_last());
        let r = keep_safe(s.drop_last());
        if script_safe(s.last()) {
            assert(r.push(s.last()).drop_last() =~= r);
        }
    }
}

/// The default install directory for a server named `name` under home directory `home`:
/// `{home}/game-smith/games/{slug}`.
pub fn default_install_dir_in(home: &str, name: &str) -> (r: String)
    ensures
        r@ == home@ + "/game-smith/games/"@ + slug(name@),
{
    let mut r = cat(home, "/game-smith/games/");
    let s = slugify(name);
    r.append(s.as_str());
    r
}

/// Every column but those named is the same in both records.
pub open spec fn same_except_status_and_error(a: Model, b: Model) -> bool {
    &&& a.id == b.id && a.app_id == b.app_id && a.name == b.name && a.install_dir == b.install_dir
    &&& a.platform == b.platform && a.boot_script == b.boot_script
    &&& a.auto_start == b.auto_start && a.auto_restart == b.auto_restart
    &&& a.auto_update == b.auto_update && a.update_on_start == b.update_on_start
    &&& a.restart_schedule == b.restart_schedule && a.server_mod == b.server_mod
    &&& a.beta_branch == b.beta_branch && a.use_steam_login == b.use_steam_login
    &&& a.template_id == b.template_id
}

impl Model {
    /// Records a new status; an error message, when one is given, replaces the
    /// stored one, and otherwise the stored one is kept.
    pub fn update_status(&mut self, status: ServerStatus, last_error: Option<String>)
        ensures
            final(self).status@ == status.text(),
            final(self).last_error == (if last_error is Some { last_error } else { old(self).last_error }),
            same_except_status_and_error(*final(self), *old(self)),
    {
        self.status = status.as_str().to_string();
        if last_error.is_some() {
            self.last_error = last_error;
        }
    }

    /// Records that the server was stopped, keeping any stored error.
    pub fn update_stop(&mut self)
        ensures
            final(self).status@ == ServerStatus::Stopped.text(),
            final(self).last_error == old(self).last_error,
            same_except_status_and_error(*final(self), *old(self)),
    {
        self.update_status(ServerStatus::Stopped, None)
    }

    /// Records that the server is running, keeping any stored error.
    pub fn update_running(&mut self)
        ensures
            final(self).status@ == ServerStatus::Running.text(),
            final(self).last_error == old(self).last_error,
            same_except_status_and_error(*final(self), *old(self)),
    {
        self.update_status(ServerStatus::Running, None)
    }

    /// Stores a boot script, with the characters unsafe for a shell stripped.
    pub fn update_boot_script(&mut self, boot_script: Option<String>)
        ensures
            match (final(self).boot_script, boot_script) {
                (Some(n), Some(o)) => n@ == keep_safe(o@),
                (None, None) => true,
                _ => false,
            },
            final(self).status == old(self).status,
            final(self).last_error == old(self).last_error,
            ({
                let a = *final(self);
                let b = *old(self);
                &&& a.id == b.id && a.app_id == b.app_id && a.name == b.name && a.install_dir == b.install_dir
                &&& a.platform == b.platform
                &&& a.auto_start == b.auto_start && a.auto_restart == b.auto_restart
                &&& a.auto_update == b.auto_update && a.update_on_start == b.update_on_start
                &&& a.restart_schedule == b.restart_schedule && a.server_mod == b.server_mod
                &&& a.beta_branch == b.beta_branch && a.use_steam_login == b.use_steam_login
                &&& a.template_id == b.template_id
            }),
    {
        self.boot_script = match boot_script {
            Some(s) => Some(sanitize_boot_script(s.as_str())),
            None => None,
        };
    }

    /// Replaces the user-editable settings; the platform, the status and the
    /// flags are left as they are.
    pub fn update_settings(
        &mut self,
        name: String,
        install_dir: String,
        server_mod: Option<String>,
        beta_branch: Option<String>,
        use_steam_login: bool,
    )
        ensures
            final(self).name == name,
            final(self).install_dir == install_dir,
            final(self).server_mod == server_mod,
            final(self).beta_branch == beta_branch,
            final(self).use_steam_login == use_steam_login,
            ({
                let a = *final(self);
                let b = *old(self);
                &&& a.id == b.id && a.app_id == b.app_id && a.platform == b.platform
                &&& a.status == b.status && a.boot_script == b.boot_script
                &&& a.auto_start == b.auto_start && a.auto_restart == b.auto_restart
                &&& a.auto_update == b.auto_update && a.update_on_start == b.update_on_start
                &&& a.restart_schedule == b.restart_schedule && a.last_error == b.last_error
                &&& a.template_id == b.template_id
            }),
    {
        self.name = name;
        self.install_dir = install_dir;
        self.server_mod = server_mod;
        self.beta_branch = beta_branch;
        self.use_steam_login = use_steam_login;
    }
}

/// Reading the status back after recording it gives the recorded status.
pub proof fn lemma_recorded_status_reads_back(m: Model, st: ServerStatus)
    requires
        m.status@ == st.text(),
    ensures
        ServerStatus::parsed(m.status@) == st,
        (ServerStatus::parsed(m.status@) == ServerStatus::Running) == (st == ServerStatus::Running),
{
    crate::status::lemma_server_status_round_trip(st);
}

/// A server record with the status flags its pages show.
#[derive(Debug)]
pub struct GameServerView<'a> {
    pub is_running: bool,
    pub is_installed: bool,
    pub is_error: bool,
    pub inner: &'a Model,
}

impl<'a> GameServerView<'a> {
    /// Wraps a server record with its status flags.
    pub fn new(server: &'a Model) -> (r: GameServerView<'a>)
        ensures
            r.is_running == (ServerStatus::parsed(server.status@) == ServerStatus::Running),
            r.is_installed == (ServerStatus::parsed(server.status@) == ServerStatus::Installed),
            r.is_error == (ServerStatus::parsed(server.status@) == ServerStatus::Error),
            r.inner == server,
    {
        GameServerView {
            is_running: server.is_running(),
            is_installed: server.is_installed(),
            is_error: server.is_error(),
            inner: server,
        }
    }
}

} // verus!
