//! Linux specifics of SteamCMD: distribution detection, 32-bit dependency diagnosis,
//! the glibc workaround, and the dependency installation sequence.
use vstd::prelude::*;

use crate::text::{
    cat, chars_contain, chars_of, contains_text, decimal, decimal_string, find_char, index_of_char,
    join, join_strings, lemma_index_of_char, lines, occurs_at, parse_unsigned, parse_unsigned_str,
    split_lines, split_words, str_contains, str_trim, string_of, substring, trim, trim_char,
    trim_matches_char, words, lemma_contains_across, lemma_contains_left, lemma_contains_right,
};

verus! {

/// Result of distro detection for manual install instructions.
#[derive(Debug, Clone)]
pub struct DistroInfo {
    /// Human-readable label.
    pub label: String,
    /// The `sudo` command that installs the 32-bit SteamCMD dependencies.
    pub install_command: String,
}

/// The key of an `os-release` line: the text before its first `=`.
pub open spec fn kv_key(line: Seq<char>) -> Seq<char> {
    line.take(index_of_char(line, '='))
}

/// The value of an `os-release` line: the text after its first `=` with surrounding
/// double quotes removed (empty when there is no `=`).
pub open spec fn kv_value(line: Seq<char>) -> Seq<char> {
    let i = index_of_char(line, '=');
    if i < line.len() {
        trim_char(line.skip(i + 1), '"')
    } else {
        seq![]
    }
}

/// The value of the last line whose key is `key`.
pub open spec fn field_value(ls: Seq<Seq<char>>, key: Seq<char>) -> Option<Seq<char>>
    decreases ls.len(),
{
    if ls.len() == 0 {
        None
    } else if kv_key(ls.last()) == key {
        Some(kv_value(ls.last()))
    } else {
        field_value(ls.drop_last(), key)
    }
}

/// `ID` and `ID_LIKE` of an `os-release` text, separated by a space (each empty when absent).
pub open spec fn os_ids(content: Seq<char>) -> Seq<char> {
    let ls = lines(content);
    let id = match field_value(ls, "ID"@) {
        Some(v) => v,
        None => seq![],
    };
    let like = match field_value(ls, "ID_LIKE"@) {
        Some(v) => v,
        None => seq![],
    };
    id + " "@ + like
}

/// Label and install command for the distribution family named in `ids`.
pub open spec fn distro_for(ids: Seq<char>) -> Option<(Seq<char>, Seq<char>)> {
    if contains_text(ids, "arch"@) || contains_text(ids, "cachyos"@) {
        Some(
            (
                "Arch Linux / CachyOS"@,
                "sudo pacman -S lib32-glibc lib32-ncurses5-compat-libs lib32-keyutils lib32-gcc-libs"@,
            ),
        )
    } else if contains_text(ids, "debian"@) || contains_text(ids, "ubuntu"@) || contains_text(
        ids,
        "pop"@,
    ) {
        Some(
            (
                "Debian / Ubuntu"@,
                "sudo dpkg --add-architecture i386 && sudo apt-get update && sudo apt-get install -y lib32gcc-s1"@,
            ),
        )
    } else if contains_text(ids, "fedora"@) || contains_text(ids, "rhel"@) || contains_text(
        ids,
        "centos"@,
    ) || contains_text(ids, "amzn"@) {
        Some(("Fedora / RHEL"@, "sudo dnf install -y glibc.i686 libstdc++.i686"@))
    } else {
        None
    }
}

/// The value of a field of an `os-release` text, empty when it is absent.
pub open spec fn os_field(content: Seq<char>, key: Seq<char>) -> Seq<char> {
    match field_value(lines(content), key) {
        Some(v) => v,
        None => seq![],
    }
}

proof fn lemma_family_words()
    ensures
        " "@ == seq![' '],
        forall|j: int| 0 <= j < "arch"@.len() ==> "arch"@[j] != ' ',
        forall|j: int| 0 <= j < "cachyos"@.len() ==> "cachyos"@[j] != ' ',
        forall|j: int| 0 <= j < "debian"@.len() ==> "debian"@[j] != ' ',
        forall|j: int| 0 <= j < "ubuntu"@.len() ==> "ubuntu"@[j] != ' ',
        forall|j: int| 0 <= j < "pop"@.len() ==> "pop"@[j] != ' ',
{
    reveal_strlit(" ");
    reveal_strlit("arch");
    reveal_strlit("cachyos");
    reveal_strlit("debian");
    reveal_strlit("ubuntu");
    reveal_strlit("pop");
}

proof fn lemma_ids_contain(content: Seq<char>, t: Seq<char>)
    requires
        forall|j: int| 0 <= j < t.len() ==> t[j] != ' ',
    ensures
        contains_text(os_ids(content), t) <==> (contains_text(os_field(content, "ID"@), t)
            || contains_text(os_field(content, "ID_LIKE"@), t)),
{
    lemma_family_words();
    let id = os_field(content, "ID"@);
    let like = os_field(content, "ID_LIKE"@);
    assert(os_ids(content) == id + " "@ + like);
    if contains_text(os_ids(content), t) {
        lemma_contains_across(id, ' ', like, t);
    }
    if contains_text(id, t) {
        lemma_contains_left(id, " "@ + like, t);
        assert(id + (" "@ + like) =~= id + " "@ + like);
    }
    if contains_text(like, t) {
        lemma_contains_right(id + " "@, like, t);
    }
}

/// Derivative distributions are recognised by their `ID_LIKE` as well as by
/// their `ID`: a system whose `ID` or `ID_LIKE` names Arch or CachyOS gets the
/// Arch install command; otherwise one whose `ID` or `ID_LIKE` names Debian
/// or Ubuntu (Linux Mint, Pop!_OS, ...) gets the Debian / Ubuntu command. The
/// result of [`distro_from_os_release`] is `distro_for(os_ids(content))`.
pub proof fn lemma_family_from_id_or_id_like(content: Seq<char>)
    ensures
        ({
            let id = os_field(content, "ID"@);
            let like = os_field(content, "ID_LIKE"@);
            &&& (contains_text(id, "arch"@) || contains_text(like, "arch"@) || contains_text(id, "cachyos"@)
                || contains_text(like, "cachyos"@)) ==> distro_for(os_ids(content)) == Some(
                ("Arch Linux / CachyOS"@,
                "sudo pacman -S lib32-glibc lib32-ncurses5-compat-libs lib32-keyutils lib32-gcc-libs"@),
            )
            &&& (!contains_text(id, "arch"@) && !contains_text(like, "arch"@) && !contains_text(id, "cachyos"@)
                && !contains_text(like, "cachyos"@) && (contains_text(id, "debian"@) || contains_text(
                like,
                "debian"@,
            ) || contains_text(id, "ubuntu"@) || contains_text(like, "ubuntu"@))) ==> distro_for(
                os_ids(content),
            ) == Some(
                ("Debian / Ubuntu"@,
                "sudo dpkg --add-architecture i386 && sudo apt-get update && sudo apt-get install -y lib32gcc-s1"@),
            )
        }),
{
    lemma_family_words();
    lemma_ids_contain(content, "arch"@);
    lemma_ids_contain(content, "cachyos"@);
    lemma_ids_contain(content, "debian"@);
    lemma_ids_contain(content, "ubuntu"@);
}

fn line_key_value(line: &str) -> (r: (String, String))
    ensures
        r.0@ == kv_key(line@),
        r.1@ == kv_value(line@),
{
    let v = chars_of(line);
    let i = find_char(v.as_slice(), '=');
    proof { lemma_index_of_char(v@, '='); }
    let key = substring(v.as_slice(), 0, i);
    assert(v@.subrange(0, i as int) =~= v@.take(i as int));
    if i < v.len() {
        let rest: Vec<char> = chars_of(substring(v.as_slice(), i + 1, v.len()).as_str());
        assert(v@.subrange(i + 1, v@.len() as int) =~= v@.skip(i + 1));
        (key, trim_matches_char(rest.as_slice(), '"'))
    } else {
        (key, String::new())
    }
}

/// The distribution's dependency install instructions, from the text of `/etc/os-release`.
pub fn distro_from_os_release(content: &str) -> (r: Option<DistroInfo>)
    ensures
        match distro_for(os_ids(content@)) {
            Some((label, cmd)) => r matches Some(d) && d.label@ == label && d.install_command@
                == cmd,
            None => r is None,
        },
{
    let ls = split_lines(content);
    let ghost lv = ls.deep_view();
    let mut id: Option<String> = None;
    let mut like: Option<String> = None;
    for i in 0..ls.len()
        invariant
            lv == ls.deep_view(),
            lv == lines(content@),
            match id {
                Some(x) => field_value(lv.take(i as int), "ID"@) == Some(x@),
                None => field_value(lv.take(i as int), "ID"@) is None,
            },
            match like {
                Some(x) => field_value(lv.take(i as int), "ID_LIKE"@) == Some(x@),
                None => field_value(lv.take(i as int), "ID_LIKE"@) is None,
            },
    {
        assert(lv.take(i + 1).drop_last() =~= lv.take(i as int));
        assert(lv.take(i + 1).last() == ls@[i as int]@);
        let (k, val) = line_key_value(ls[i].as_str());
        if crate::text::str_eq(k.as_str(), "ID") {
            id = Some(val);
        } else if crate::text::str_eq(k.as_str(), "ID_LIKE") {
            like = Some(val);
        }
        proof {
            reveal_strlit("ID");
            reveal_strlit("ID_LIKE");
            assert("ID"@.len() != "ID_LIKE"@.len());
        }
    }
    assert(lv.take(ls@.len() as int) =~= lv);
    let id_s = match id {
        Some(x) => x,
        None => String::new(),
    };
    let like_s = match like {
        Some(x) => x,
        None => String::new(),
    };
    let mut ids = cat(id_s.as_str(), " ");
    ids.append(like_s.as_str());
    let ids = ids.as_str();
    if str_contains(ids, "arch") || str_contains(ids, "cachyos") {
        Some(
            DistroInfo {
                label: "Arch Linux / CachyOS".to_owned(),
                install_command: "sudo pacman -S lib32-glibc lib32-ncurses5-compat-libs lib32-keyutils lib32-gcc-libs".to_owned(),
            },
        )
    } else if str_contains(ids, "debian") || str_contains(ids, "ubuntu") || str_contains(ids, "pop") {
        Some(
            DistroInfo {
                label: "Debian / Ubuntu".to_owned(),
                install_command: "sudo dpkg --add-architecture i386 && sudo apt-get update && sudo apt-get install -y lib32gcc-s1".to_owned(),
            },
        )
    } else if str_contains(ids, "fedora") || str_contains(ids, "rhel") || str_contains(ids, "centos")
        || str_contains(ids, "amzn") {
        Some(
            DistroInfo {
                label: "Fedora / RHEL".to_owned(),
                install_command: "sudo dnf install -y glibc.i686 libstdc++.i686".to_owned(),
            },
        )
    } else {
        None
    }
}


/// The library name an `ldd` line reports: its first word, or the trimmed line when
/// it has no word.
pub open spec fn ldd_library(line: Seq<char>) -> Seq<char> {
    if words(line).len() > 0 {
        words(line)[0]
    } else {
        trim(line)
    }
}

/// The libraries `ldd` reports as `not found`, in order.
pub open spec fn missing_libs(ls: Seq<Seq<char>>) -> Seq<Seq<char>>
    decreases ls.len(),
{
    if ls.len() == 0 {
        seq![]
    } else {
        let r = missing_libs(ls.drop_last());
        if contains_text(ls.last(), "not found"@) {
            r.push(ldd_library(ls.last()))
        } else {
            r
        }
    }
}

/// The libraries reported `not found` in the standard output of `ldd`.
pub fn missing_libraries(ldd_stdout: &str) -> (r: Vec<String>)
    ensures
        r.deep_view() == missing_libs(lines(ldd_stdout@)),
{
    let ls = split_lines(ldd_stdout);
    let ghost lv = ls.deep_view();
    let mut r: Vec<String> = Vec::new();
    for i in 0..ls.len()
        invariant
            lv == ls.deep_view(),
            r.deep_view() == missing_libs(lv.take(i as int)),
    {
        assert(lv.take(i + 1).drop_last() =~= lv.take(i as int));
        assert(lv.take(i + 1).last() == ls@[i as int]@);
        let line = ls[i].as_str();
        if str_contains(line, "not found") {
            let ws = split_words(line);
            let lib = if ws.len() > 0 {
                assert(ws.deep_view()[0] == ws@[0]@);
                ws[0].clone()
            } else {
                str_trim(line)
            };
            let ghost before = r.deep_view();
            r.push(lib);
            assert(r.deep_view() =~= before.push(ldd_library(line@)));
        }
    }
    assert(lv.take(ls@.len() as int) =~= lv);
    r
}

/// Details of missing 32-bit libraries:
/// `{n} 32-bit shared library(ies) not found: {names}` and the trimmed stderr on a new line.
pub fn missing_dependencies_details(missing: &Vec<String>, stderr: &str) -> (r: String)
    ensures
        r@ == decimal(missing@.len() as nat) + " 32-bit shared library(ies) not found: "@ + join(
            missing.deep_view(),
            ", "@,
        ) + "\n"@ + trim(stderr@),
{
    let mut r = decimal_string(missing.len() as u64);
    r.append(" 32-bit shared library(ies) not found: ");
    let names = join_strings(missing, ", ");
    r.append(names.as_str());
    r.append("\n");
    let t = str_trim(stderr);
    r.append(t.as_str());
    r
}

/// Major and minor version from `ldd --version` output: the last word of the first
/// line, read as `major.minor[...]`.
pub open spec fn glibc_version(output: Seq<char>) -> Option<(u32, u32)> {
    let ls = lines(output);
    if ls.len() == 0 || words(ls[0]).len() == 0 {
        None
    } else {
        let token = words(ls[0]).last();
        let i = index_of_char(token, '.');
        let rest = token.skip(i + 1);
        let j = index_of_char(rest, '.');
        if i < token.len() {
            match (parse_unsigned(token.take(i), u32::MAX as nat), parse_unsigned(rest.take(j), u32::MAX as nat)) {
                (Some(a), Some(b)) => Some((a as u32, b as u32)),
                _ => None,
            }
        } else {
            None
        }
    }
}

/// Parse the glibc version from `ldd --version` output (`ldd (GNU libc) 2.43`).
pub fn parse_glibc_version(output: &str) -> (r: Option<(u32, u32)>)
    ensures
        r == glibc_version(output@),
{
    let ls = split_lines(output);
    if ls.len() == 0 {
        return None;
    }
    assert(ls.deep_view()[0] == ls@[0]@);
    let ws = split_words(ls[0].as_str());
    if ws.len() == 0 {
        return None;
    }
    assert(ws.deep_view().last() == ws@[ws@.len() - 1]@);
    let token = chars_of(ws[ws.len() - 1].as_str());
    let i = find_char(token.as_slice(), '.');
    proof { lemma_index_of_char(token@, '.'); }
    if i == token.len() {
        return None;
    }
    let major_text = substring(token.as_slice(), 0, i);
    assert(token@.subrange(0, i as int) =~= token@.take(i as int));
    let rest_text = substring(token.as_slice(), i + 1, token.len());
    assert(token@.subrange(i + 1, token@.len() as int) =~= token@.skip(i + 1));
    let rest = chars_of(rest_text.as_str());
    let j = find_char(rest.as_slice(), '.');
    proof { lemma_index_of_char(rest@, '.'); }
    let minor_text = substring(rest.as_slice(), 0, j);
    assert(rest@.subrange(0, j as int) =~= rest@.take(j as int));
    let major = parse_unsigned_str(major_text.as_str(), 0xFFFF_FFFF);
    let minor = parse_unsigned_str(minor_text.as_str(), 0xFFFF_FFFF);
    match (major, minor) {
        (Some(a), Some(b)) => Some((a as u32, b as u32)),
        _ => None,
    }
}

/// Whether a glibc version is in the affected range (2.38 or later), which needs the
/// `LD_PRELOAD` workaround.
pub fn needs_ld_preload(version: (u32, u32)) -> (r: bool)
    ensures
        r == (version.0 > 2 || (version.0 == 2 && version.1 >= 38)),
{
    version.0 > 2 || (version.0 == 2 && version.1 >= 38)
}

/// The largest position at or below `from` where `t` occurs in `s` (-1 if none).
pub open spec fn last_match_start(s: Seq<char>, t: Seq<char>, from: int) -> int
    decreases from + 1,
{
    if from < 0 {
        -1
    } else if occurs_at(s, t, from) {
        from
    } else {
        last_match_start(s, t, from - 1)
    }
}

/// The text after the last occurrence of `t` in `s` (all of `s` when `t` does not
/// occur): the last piece of `str::split` for a pattern whose occurrences cannot overlap.
pub open spec fn after_last(s: Seq<char>, t: Seq<char>) -> Seq<char> {
    let k = last_match_start(s, t, s.len() - t.len());
    if k >= 0 {
        s.skip(k + t.len())
    } else {
        s
    }
}

/// Whether `line` is an `ldconfig -p` entry of the 32-bit `libgcc_s.so.1`.
pub open spec fn is_32bit_libgcc_line(line: Seq<char>) -> bool {
    contains_text(line, "libgcc_s.so.1"@) && !contains_text(line, "x86-64"@)
}

/// Position of the first line satisfying `is_32bit_libgcc_line` (`ls.len()` if none).
pub open spec fn first_libgcc_line(ls: Seq<Seq<char>>, from: int) -> int
    decreases ls.len() - from,
{
    if from < 0 || from >= ls.len() {
        ls.len() as int
    } else if is_32bit_libgcc_line(ls[from]) {
        from
    } else {
        first_libgcc_line(ls, from + 1)
    }
}

/// The path of the 32-bit `libgcc_s.so.1` in `ldconfig -p` output: the first entry
/// line not for x86-64, the text after its last `=>`, trimmed; none if that is empty.
pub open spec fn libgcc_path(output: Seq<char>) -> Option<Seq<char>> {
    let ls = lines(output);
    let k = first_libgcc_line(ls, 0);
    if k < ls.len() && trim(after_last(ls[k], "=>"@)).len() > 0 {
        Some(trim(after_last(ls[k], "=>"@)))
    } else {
        None
    }
}

fn text_after_last(v: &Vec<char>, t: &Vec<char>) -> (r: String)
    ensures
        r@ == after_last(v@, t@),
{
    if t.len() > v.len() {
        assert(last_match_start(v@, t@, v@.len() - t@.len()) == -1);
        return string_of(v.as_slice());
    }
    if t.len() == 0 {
        assert(v@.subrange(v@.len() as int, v@.len() as int) =~= t@);
        assert(occurs_at(v@, t@, v@.len() as int));
        return String::new();
    }
    let mut k: usize = v.len() - t.len() + 1;
    while k > 0
        invariant
            t@.len() <= v@.len(),
            k <= v@.len() - t@.len() + 1,
            k <= v.len(),
            last_match_start(v@, t@, v@.len() - t@.len()) == last_match_start(v@, t@, k - 1),
        decreases k,
    {
        if crate::text::matches_at(v.as_slice(), t.as_slice(), k - 1) {
            let r = substring(v.as_slice(), k - 1 + t.len(), v.len());
            assert(v@.subrange(k - 1 + t@.len(), v@.len() as int) =~= v@.skip(k - 1 + t@.len()));
            return r;
        }
        k = k - 1;
    }
    string_of(v.as_slice())
}

/// Find the 32-bit `libgcc_s.so.1` path in `ldconfig -p` output.
pub fn find_32bit_libgcc(ldconfig_output: &str) -> (r: Option<String>)
    ensures
        r.deep_view() == libgcc_path(ldconfig_output@),
{
    let ls = split_lines(ldconfig_output);
    let ghost lv = ls.deep_view();
    let mut k: usize = 0;
    while k < ls.len() && !(str_contains(ls[k].as_str(), "libgcc_s.so.1") && !str_contains(
        ls[k].as_str(),
        "x86-64",
    ))
        invariant
            lv == ls.deep_view(),
            k <= ls@.len(),
            first_libgcc_line(lv, 0) == first_libgcc_line(lv, k as int),
        decreases ls@.len() - k,
    {
        assert(lv[k as int] == ls@[k as int]@);
        k = k + 1;
    }
    if k == ls.len() {
        return None;
    }
    assert(lv[k as int] == ls@[k as int]@);
    let line = chars_of(ls[k].as_str());
    let arrow = chars_of("=>");
    let tail = text_after_last(&line, &arrow);
    let p = str_trim(tail.as_str());
    if p.as_str().is_empty() {
        None
    } else {
        Some(p)
    }
}

/// The shell line that sets the preload: `export LD_PRELOAD={path}`.
pub fn ld_preload_export_line(lib_path: &str) -> (r: String)
    ensures
        r@ == "export LD_PRELOAD="@ + lib_path@,
{
    cat("export LD_PRELOAD=", lib_path)
}

/// The text appended to a shell profile for an export line.
pub fn profile_snippet(export_line: &str) -> (r: String)
    ensures
        r@ == "\n# SteamCMD glibc workaround\n"@ + export_line@ + "\n"@,
{
    let mut r = cat("\n# SteamCMD glibc workaround\n", export_line);
    r.append("\n");
    r
}

/// `s` cut to its first `max_chars` characters followed by `...`, when it is longer.
pub open spec fn truncated(s: Seq<char>, max_chars: nat) -> Seq<char> {
    if s.len() <= max_chars {
        s
    } else {
        s.take(max_chars as int) + "..."@
    }
}

/// Cut a text to at most `max_chars` characters, marking a cut with `...`.
pub fn truncate(s: &str, max_chars: usize) -> (r: String)
    ensures
        r@ == truncated(s@, max_chars as nat),
{
    let v = chars_of(s);
    if v.len() <= max_chars {
        s.to_owned()
    } else {
        let mut r = substring(v.as_slice(), 0, max_chars);
        assert(v@.subrange(0, max_chars as int) =~= v@.take(max_chars as int));
        r.append("...");
        r
    }
}


/// Error of one dependency installation attempt.
#[derive(Debug)]
pub enum DepsError {
    /// The package manager command was not found on the system.
    NotFound { cmd: String },
    /// The package manager command failed.
    InstallFailed { cmd: String, stdout: String, stderr: String },
}

impl DepsError {
    /// The text of an error.
    pub open spec fn text(&self) -> Seq<char> {
        match self {
            DepsError::NotFound { cmd } => "Command \""@ + cmd@ + "\" not found on this system"@,
            DepsError::InstallFailed { cmd, stdout, stderr } => "Command \""@ + cmd@ + "\" failed."@
                + (if stdout@.len() > 0 {
                "\nstdout: "@ + stdout@
            } else {
                seq![]
            }) + (if stderr@.len() > 0 {
                "\nstderr: "@ + stderr@
            } else {
                seq![]
            }),
        }
    }

    /// The error message (what `Display` shows).
    pub fn message(&self) -> (r: String)
        ensures
            r@ == self.text(),
    {
        match self {
            DepsError::NotFound { cmd } => {
                let mut r = cat("Command \"", cmd.as_str());
                r.append("\" not found on this system");
                r
            },
            DepsError::InstallFailed { cmd, stdout, stderr } => {
                let mut r = cat("Command \"", cmd.as_str());
                r.append("\" failed.");
                if !stdout.as_str().is_empty() {
                    r.append("\nstdout: ");
                    r.append(stdout.as_str());
                }
                if !stderr.as_str().is_empty() {
                    r.append("\nstderr: ");
                    r.append(stderr.as_str());
                }
                r
            },
        }
    }

    /// The error for an I/O failure other than a missing command, carrying its message.
    pub fn from_io_message(message: String) -> (r: DepsError)
        ensures
            r matches DepsError::InstallFailed { cmd, stdout, stderr } && cmd@ == "unknown"@
                && stdout@ == message@ && stderr@.len() == 0,
    {
        DepsError::InstallFailed { cmd: "unknown".to_owned(), stdout: message, stderr: String::new() }
    }
}

/// How running a package manager command ended.
pub enum SpawnOutcome {
    /// The command was not found.
    NotFound,
    /// The command could not be run for another reason, with that error's message.
    Failed(String),
    /// The command ran: its success and captured output.
    Exited { success: bool, stdout: String, stderr: String },
}

/// The result of a package manager command: success, a missing command, or a failure
/// carrying the output, each stream cut to 512 characters.
pub fn deps_command_result(cmd: &str, outcome: SpawnOutcome) -> (r: Result<(), DepsError>)
    ensures
        match outcome {
            SpawnOutcome::NotFound => r matches Err(DepsError::NotFound { cmd: c }) && c@ == cmd@,
            SpawnOutcome::Failed(m) => r matches Err(DepsError::InstallFailed { cmd: c, stdout, stderr })
                && c@ == "unknown"@ && stdout@ == m@ && stderr@.len() == 0,
            SpawnOutcome::Exited { success, stdout, stderr } => if success {
                r is Ok
            } else {
                r matches Err(DepsError::InstallFailed { cmd: c, stdout: o, stderr: e }) && c@ == cmd@
                    && o@ == truncated(stdout@, 512) && e@ == truncated(stderr@, 512)
            },
        },
{
    match outcome {
        SpawnOutcome::NotFound => Err(DepsError::NotFound { cmd: cmd.to_owned() }),
        SpawnOutcome::Failed(m) => Err(DepsError::from_io_message(m)),
        SpawnOutcome::Exited { success, stdout, stderr } => {
            if success {
                Ok(())
            } else {
                Err(
                    DepsError::InstallFailed {
                        cmd: cmd.to_owned(),
                        stdout: truncate(stdout.as_str(), 512),
                        stderr: truncate(stderr.as_str(), 512),
                    },
                )
            }
        },
    }
}

/// A package manager that can install the 32-bit SteamCMD dependencies.
pub struct PkgManager {
    pub name: String,
    pub cmd: String,
    pub args: Vec<String>,
}

/// The package managers tried, in order: name, command, arguments.
pub open spec fn package_managers() -> Seq<(Seq<char>, Seq<char>, Seq<Seq<char>>)> {
    seq![
        ("pacman"@, "pacman"@, seq!["-S"@, "--noconfirm"@, "lib32-glibc"@, "lib32-ncurses5-compat-libs"@, "lib32-keyutils"@, "lib32-gcc-libs"@]),
        ("apt-get"@, "apt-get"@, seq!["install"@, "-y"@, "lib32gcc-s1"@]),
        ("dnf"@, "dnf"@, seq!["install"@, "-y"@, "glibc.i686"@, "libstdc++.i686"@]),
        ("yum"@, "yum"@, seq!["install"@, "-y"@, "glibc.i686"@, "libstdc++.i686"@]),
    ]
}

/// A package manager's entry matches its specification.
pub open spec fn pkg_matches(p: PkgManager, spec: (Seq<char>, Seq<char>, Seq<Seq<char>>)) -> bool {
    p.name@ == spec.0 && p.cmd@ == spec.1 && p.args.deep_view() == spec.2
}

fn strings(items: &[&str]) -> (r: Vec<String>)
    ensures
        r.deep_view() == items@.map_values(|s: &str| s@),
{
    let mut r: Vec<String> = Vec::new();
    for i in 0..items.len()
        invariant
            r.deep_view() == items@.take(i as int).map_values(|s: &str| s@),
    {
        let ghost before = r.deep_view();
        r.push(items[i].to_owned());
        assert(r.deep_view() =~= before.push(items@[i as int]@));
        assert(items@.take(i + 1).map_values(|s: &str| s@) =~= items@.take(i as int).map_values(
            |s: &str| s@,
        ).push(items@[i as int]@));
    }
    assert(items@.take(items@.len() as int) =~= items@);
    r
}

/// The package managers tried, in order.
pub fn package_manager_list() -> (r: Vec<PkgManager>)
    ensures
        r@.len() == package_managers().len(),
        forall|i: int| 0 <= i < r@.len() ==> pkg_matches(#[trigger] r@[i], package_managers()[i]),
{
    let mut r: Vec<PkgManager> = Vec::new();
    let a = strings(&["-S", "--noconfirm", "lib32-glibc", "lib32-ncurses5-compat-libs", "lib32-keyutils", "lib32-gcc-libs"]);
    assert(a.deep_view() =~= package_managers()[0].2);
    r.push(PkgManager { name: "pacman".to_owned(), cmd: "pacman".to_owned(), args: a });
    let b = strings(&["install", "-y", "lib32gcc-s1"]);
    assert(b.deep_view() =~= package_managers()[1].2);
    r.push(PkgManager { name: "apt-get".to_owned(), cmd: "apt-get".to_owned(), args: b });
    let c = strings(&["install", "-y", "glibc.i686", "libstdc++.i686"]);
    assert(c.deep_view() =~= package_managers()[2].2);
    r.push(PkgManager { name: "dnf".to_owned(), cmd: "dnf".to_owned(), args: c });
    let d = strings(&["install", "-y", "glibc.i686", "libstdc++.i686"]);
    assert(d.deep_view() =~= package_managers()[3].2);
    r.push(PkgManager { name: "yum".to_owned(), cmd: "yum".to_owned(), args: d });
    r
}

/// The command line of a package manager, for logs: the command, a space, the arguments
/// joined by spaces.
pub fn command_line(p: &PkgManager) -> (r: String)
    ensures
        r@ == p.cmd@ + " "@ + join(p.args.deep_view(), " "@),
{
    let mut r = cat(p.cmd.as_str(), " ");
    let a = join_strings(&p.args, " ");
    r.append(a.as_str());
    r
}

/// The run-log line written before a package manager is tried:
/// `Attempting: {command line}`.
pub fn deps_attempt_note(p: &PkgManager) -> (r: String)
    ensures
        r@ == "Attempting: "@ + p.cmd@ + " "@ + join(p.args.deep_view(), " "@),
{
    let line = command_line(p);
    cat("Attempting: ", line.as_str())
}

/// The run-log line written when a package manager installed the dependencies.
pub fn deps_installed_note(name: &str) -> (r: String)
    ensures
        r@ == "Dependencies installed successfully via "@ + name@,
{
    cat("Dependencies installed successfully via ", name)
}

/// What the dependency installation does after one attempt.
pub enum DepsNext {
    /// Try the package manager at this position.
    Try(usize),
    /// Installed with the package manager of this name.
    Installed(String),
    /// Gave up, with this reason.
    GaveUp(String),
}

/// The text of giving up when no package manager could be run.
pub open spec fn no_manager_text() -> Seq<char> {
    "No package manager found or all failed"@
}

/// The names of some package managers, in order.
pub open spec fn manager_names(managers: Seq<PkgManager>) -> Seq<Seq<char>> {
    managers.map_values(|p: PkgManager| p.name@)
}

/// What attempting manager `i` of managers named `names` with `result` settles:
/// nothing yet (`None`: the next manager is tried), the name of the manager
/// that installed the libraries, or the reason for giving up.
pub open spec fn deps_step(names: Seq<Seq<char>>, i: int, result: Result<(), DepsError>) -> Option<Result<Seq<char>, Seq<char>>> {
    match result {
        Ok(()) => Some(Ok(names[i])),
        Err(DepsError::NotFound { .. }) => if i + 1 < names.len() {
            None
        } else {
            Some(Err(no_manager_text()))
        },
        Err(e) => Some(Err(e.text())),
    }
}

/// The step `r` is the settled outcome `s`, or, when nothing is settled, the
/// attempt of manager `next`.
pub open spec fn deps_step_is(r: DepsNext, s: Option<Result<Seq<char>, Seq<char>>>, next: int) -> bool {
    match r {
        DepsNext::Try(j) => s is None && j == next,
        DepsNext::Installed(n) => s == Some(Ok::<Seq<char>, Seq<char>>(n@)),
        DepsNext::GaveUp(m) => s == Some(Err::<Seq<char>, Seq<char>>(m@)),
    }
}

/// The step after attempting package manager `i` of `managers`: success ends the
/// installation; a missing command moves on to the next manager (giving up after the
/// last); any other failure gives up with that error's message.
pub fn deps_install_step(managers: &Vec<PkgManager>, i: usize, result: Result<(), DepsError>) -> (r: DepsNext)
    requires
        i < managers@.len(),
    ensures
        match result {
            Ok(()) => r matches DepsNext::Installed(n) && n@ == managers@[i as int].name@,
            Err(DepsError::NotFound { .. }) => if i + 1 < managers@.len() {
                r matches DepsNext::Try(j) && j == i + 1
            } else {
                r matches DepsNext::GaveUp(m) && m@ == "No package manager found or all failed"@
            },
            Err(e) => r matches DepsNext::GaveUp(m) && m@ == e.text(),
        },
        deps_step_is(r, deps_step(manager_names(managers@), i as int, result), i + 1),
{
    match result {
        Ok(()) => DepsNext::Installed(managers[i].name.clone()),
        Err(DepsError::NotFound { cmd }) => {
            if i < managers.len() - 1 {
                DepsNext::Try(i + 1)
            } else {
                DepsNext::GaveUp("No package manager found or all failed".to_owned())
            }
        },
        Err(e) => DepsNext::GaveUp(e.message()),
    }
}

/// Trying the package managers named `names` from position `i` on, where
/// attempting manager `k` gives `outcomes[k]`: how many managers are tried in
/// all, and the name of the one that installed the libraries or the reason
/// for giving up.
pub open spec fn deps_drive(names: Seq<Seq<char>>, outcomes: Seq<Result<(), DepsError>>, i: int) -> (int, Result<Seq<char>, Seq<char>>)
    decreases names.len() - i,
{
    if i < 0 || i >= names.len() {
        (i, Err(no_manager_text()))
    } else {
        match deps_step(names, i, outcomes[i]) {
            None => deps_drive(names, outcomes, i + 1),
            Some(o) => (i + 1, o),
        }
    }
}

/// An attempt whose package manager command was not found.
pub open spec fn command_missing(o: Result<(), DepsError>) -> bool {
    o matches Err(DepsError::NotFound { .. })
}

/// The first position at or after `from` and before `n` whose attempt did
/// not find its command missing (`n` when every one did).
pub open spec fn first_present(outcomes: Seq<Result<(), DepsError>>, from: int, n: int) -> int
    decreases n - from,
{
    if from >= n {
        n
    } else if command_missing(outcomes[from]) {
        first_present(outcomes, from + 1, n)
    } else {
        from
    }
}

proof fn lemma_deps_drive_from(names: Seq<Seq<char>>, outcomes: Seq<Result<(), DepsError>>, i: int)
    requires
        0 <= i <= names.len(),
    ensures
        ({
            let n = names.len() as int;
            let j = first_present(outcomes, i, n);
            &&& i <= j <= n
            &&& forall|k: int| i <= k < j ==> command_missing(#[trigger] outcomes[k])
            &&& deps_drive(names, outcomes, i) == if j < n {
                (j + 1, match outcomes[j] {
                    Ok(()) => Ok::<Seq<char>, Seq<char>>(names[j]),
                    Err(e) => Err::<Seq<char>, Seq<char>>(e.text()),
                })
            } else if n > i {
                (n, Err::<Seq<char>, Seq<char>>(no_manager_text()))
            } else {
                (i, Err::<Seq<char>, Seq<char>>(no_manager_text()))
            }
        }),
    decreases names.len() - i,
{
    if i < names.len() {
        lemma_deps_drive_from(names, outcomes, i + 1);
    }
}

/// Installing the dependencies, whole: driven by [`deps_install_step`] from
/// the first manager, where attempting manager `k` gives `outcomes[k]`, the
/// managers are tried in order while their commands are missing. The first
/// one whose command exists ends the installation: with its name when it
/// succeeded, or with its error's message when it failed. When every command
/// is missing, all are tried and the installation gives up with
/// "No package manager found or all failed". The managers are, in order,
/// pacman, apt-get, dnf and yum ([`package_manager_list`]).
pub proof fn lemma_deps_tried_in_order(names: Seq<Seq<char>>, outcomes: Seq<Result<(), DepsError>>)
    requires
        names.len() > 0,
    ensures
        ({
            let n = names.len() as int;
            let j = first_present(outcomes, 0, n);
            &&& j <= n
            &&& forall|k: int| 0 <= k < j ==> command_missing(#[trigger] outcomes[k])
            &&& deps_drive(names, outcomes, 0) == if j < n {
                (j + 1, match outcomes[j] {
                    Ok(()) => Ok::<Seq<char>, Seq<char>>(names[j]),
                    Err(e) => Err::<Seq<char>, Seq<char>>(e.text()),
                })
            } else {
                (n, Err::<Seq<char>, Seq<char>>(no_manager_text()))
            }
        }),
{
    lemma_deps_drive_from(names, outcomes, 0);
}

/// The log line written when dependency installation gives up.
pub fn deps_failure_note(reason: &str) -> (r: String)
    ensures
        r@ == "Dependency install failed: "@ + reason@
            + ". See https://developer.valvesoftware.com/wiki/SteamCMD#Manually for manual instructions."@,
{
    let mut r = cat("Dependency install failed: ", reason);
    r.append(". See https://developer.valvesoftware.com/wiki/SteamCMD#Manually for manual instructions.");
    r
}

/// The text appended to a shell profile for an export line.
pub open spec fn profile_text(export_line: Seq<char>) -> Seq<char> {
    "\n# SteamCMD glibc workaround\n"@ + export_line + "\n"@
}

/// What to append to a shell profile (`existing`, `None` when it could not be
/// read) for an export line: nothing when the profile already holds the line,
/// else the workaround snippet.
pub fn profile_addition(existing: Option<&str>, export_line: &str) -> (r: Option<String>)
    ensures
        (existing matches Some(e) && contains_text(e@, export_line@)) ==> r is None,
        !(existing matches Some(e) && contains_text(e@, export_line@)) ==> (r matches Some(t)
            && t@ == profile_text(export_line@)),
{
    match existing {
        Some(e) => if str_contains(e, export_line) {
            return None;
        },
        None => {},
    }
    Some(profile_snippet(export_line))
}

/// Whether `ldd --version` output shows a glibc that needs the `LD_PRELOAD`
/// workaround: a version that parses and is 2.38 or later.
pub open spec fn glibc_affected(output: Seq<char>) -> bool {
    glibc_version(output) matches Some(v) && (v.0 > 2 || (v.0 == 2 && v.1 >= 38))
}

/// Whether the workaround goes on to look for the library: `ldd --version`
/// ran (`Some` of its output) and shows an affected glibc.
pub fn glibc_needs_workaround(ldd_output: Option<&str>) -> (r: bool)
    ensures
        r == (ldd_output matches Some(o) && glibc_affected(o@)),
{
    match ldd_output {
        Some(o) => match parse_glibc_version(o) {
            Some(v) => needs_ld_preload(v),
            None => false,
        },
        None => false,
    }
}

/// The shell profile the workaround goes into.
#[derive(Debug, Clone, Copy, PartialEq, Eq, Structural)]
pub enum ProfileFile {
    Bashrc,
    Profile,
}

/// Which profile receives the export line: `~/.bashrc` when it exists, else
/// `~/.profile` when it exists; none when `HOME` is not set or neither exists.
pub fn profile_target(home_set: bool, bashrc_exists: bool, profile_exists: bool) -> (r: Option<ProfileFile>)
    ensures
        r == (if !home_set {
            None
        } else if bashrc_exists {
            Some(ProfileFile::Bashrc)
        } else if profile_exists {
            Some(ProfileFile::Profile)
        } else {
            None
        }),
{
    if !home_set {
        None
    } else if bashrc_exists {
        Some(ProfileFile::Bashrc)
    } else if profile_exists {
        Some(ProfileFile::Profile)
    } else {
        None
    }
}

/// What the glibc workaround writes.
pub struct ShellEnvPlan {
    /// The 32-bit `libgcc_s.so.1` written to the hint file, if one is found.
    pub library: Option<String>,
    /// The profile and the text appended to it, if any.
    pub profile_append: Option<(ProfileFile, String)>,
}

/// The library the workaround records, from what `ldd --version` and
/// `ldconfig -p` printed (`None` for a command that did not run or failed):
/// the 32-bit `libgcc_s.so.1` that `ldconfig` lists, when glibc is affected.
pub open spec fn planned_library(ldd_output: Option<Seq<char>>, ldconfig_output: Option<Seq<char>>) -> Option<Seq<char>> {
    match (ldd_output, ldconfig_output) {
        (Some(g), Some(l)) => if glibc_affected(g) {
            libgcc_path(l)
        } else {
            None
        },
        _ => None,
    }
}

/// The glibc workaround, whole, from what was observed: `ldd --version`'s
/// output, `ldconfig -p`'s output (`None` when either did not run or failed),
/// the profile chosen by [`profile_target`] and its text (`None` when it could
/// not be read). A library is recorded exactly when glibc is 2.38 or later and
/// `ldconfig` lists a 32-bit `libgcc_s.so.1`; then, when there is a profile
/// that does not already hold `export LD_PRELOAD={library}`, the workaround
/// snippet with that line is appended to it.
pub fn shell_env_plan(
    ldd_output: Option<&str>,
    ldconfig_output: Option<&str>,
    profile: Option<ProfileFile>,
    existing: Option<&str>,
) -> (r: ShellEnvPlan)
    ensures
        ({
            let lib = planned_library(
                match ldd_output {
                    Some(o) => Some(o@),
                    None => None,
                },
                match ldconfig_output {
                    Some(o) => Some(o@),
                    None => None,
                },
            );
            &&& match lib {
                Some(l) => r.library matches Some(x) && x@ == l,
                None => r.library is None,
            }
            &&& match (lib, profile) {
                (Some(l), Some(f)) => if existing matches Some(e) && contains_text(e@, "export LD_PRELOAD="@ + l) {
                    r.profile_append is None
                } else {
                    r.profile_append matches Some(a) && a.0 == f && a.1@ == profile_text("export LD_PRELOAD="@ + l)
                },
                _ => r.profile_append is None,
            }
        }),
{
    let none = ShellEnvPlan { library: None, profile_append: None };
    if !glibc_needs_workaround(ldd_output) {
        return none;
    }
    let lib = match ldconfig_output {
        Some(out) => match find_32bit_libgcc(out) {
            Some(l) => l,
            None => return none,
        },
        None => return none,
    };
    let profile_append = match profile {
        Some(f) => {
            let line = ld_preload_export_line(lib.as_str());
            match profile_addition(existing, line.as_str()) {
                Some(t) => Some((f, t)),
                None => None,
            }
        },
        None => None,
    };
    ShellEnvPlan { library: Some(lib), profile_append }
}

/// Adding the workaround is done once: a profile with the snippet appended
/// holds the export line, so it is not appended again.
pub proof fn lemma_profile_addition_once(existing: Seq<char>, export_line: Seq<char>)
    ensures
        contains_text(existing + profile_text(export_line), export_line),
{
    reveal_strlit("\n# SteamCMD glibc workaround\n");
    let prefix = "\n# SteamCMD glibc workaround\n"@;
    let whole = existing + profile_text(export_line);
    let at: int = (existing.len() + prefix.len()) as int;
    assert(whole.subrange(at, at + export_line.len()) =~= export_line);
    assert(occurs_at(whole, export_line, at));
}

} // verus!
