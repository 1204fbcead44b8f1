//! Game templates: their export format, the form data an import fills in,
//! the validation rules, and the URL-safe base64 framing of exported JSON.
use vstd::prelude::*;
use vstd::utf8::{decode_utf8, encode_utf8, valid_utf8};

use crate::encryption::string_from_utf8;
use crate::errors::StandardError;
use crate::text::{
    bool_string, bool_text, chars_of, clone_opt, contains_text, drop_blank, non_blank, opt_view,
    parse_i32, parse_signed, signed_decimal, signed_decimal_string, str_contains, str_trim, trim,
};

verus! {

broadcast use vstd::utf8::group_utf8_lib;

/// A persisted game template, holding the columns the logic reads.
#[derive(Debug, Clone)]
pub struct Model {
    pub id: i32,
    pub name: String,
    pub description: Option<String>,
    pub app_id: i32,
    pub server_mod: Option<String>,
    pub beta_branch: Option<String>,
    pub boot_script: Option<String>,
    pub use_steam_login: bool,
    pub auto_start: bool,
    pub auto_restart: bool,
    pub auto_update: bool,
    pub update_on_start: bool,
    pub restart_schedule: Option<String>,
}

/// The versioned export format of a template.
#[derive(Debug, Clone)]
pub struct TemplateExport {
    pub version: u32,
    pub name: String,
    pub description: Option<String>,
    pub app_id: i32,
    pub server_mod: Option<String>,
    pub beta_branch: Option<String>,
    pub boot_script: Option<String>,
    pub use_steam_login: bool,
    pub auto_start: bool,
    pub auto_restart: bool,
    pub auto_update: bool,
    pub update_on_start: bool,
    pub restart_schedule: Option<String>,
}

/// The export format version written by this library.
pub const EXPORT_VERSION: u32 = 1;

/// The export of a template: the current version, and each field as stored.
pub fn model_to_export(model: &Model) -> (r: TemplateExport)
    ensures
        r.version == EXPORT_VERSION,
        r.name == model.name,
        r.description == model.description,
        r.app_id == model.app_id,
        r.server_mod == model.server_mod,
        r.beta_branch == model.beta_branch,
        r.boot_script == model.boot_script,
        r.use_steam_login == model.use_steam_login,
        r.auto_start == model.auto_start,
        r.auto_restart == model.auto_restart,
        r.auto_update == model.auto_update,
        r.update_on_start == model.update_on_start,
        r.restart_schedule == model.restart_schedule,
{
    TemplateExport {
        version: EXPORT_VERSION,
        name: model.name.clone(),
        description: clone_opt(&model.description),
        app_id: model.app_id,
        server_mod: clone_opt(&model.server_mod),
        beta_branch: clone_opt(&model.beta_branch),
        boot_script: clone_opt(&model.boot_script),
        use_steam_login: model.use_steam_login,
        auto_start: model.auto_start,
        auto_restart: model.auto_restart,
        auto_update: model.auto_update,
        update_on_start: model.update_on_start,
        restart_schedule: clone_opt(&model.restart_schedule),
    }
}

/// A form field, when the value is present.
pub open spec fn optional_field(key: Seq<char>, value: Option<Seq<char>>) -> Seq<(Seq<char>, Seq<char>)> {
    match value {
        Some(v) => seq![(key, v)],
        None => seq![],
    }
}

/// The form fields of an export, in form order: name, App ID, the optional
/// description, mod, branch and boot script when present, the five flags
/// as `true`/`false`, and the restart schedule when present.
pub open spec fn form_fields(e: TemplateExport) -> Seq<(Seq<char>, Seq<char>)> {
    seq![("name"@, e.name@), ("app_id"@, signed_decimal(e.app_id as int))]
        + optional_field("description"@, opt_view(e.description))
        + optional_field("server_mod"@, opt_view(e.server_mod))
        + optional_field("beta_branch"@, opt_view(e.beta_branch))
        + optional_field("boot_script"@, opt_view(e.boot_script))
        + seq![
            ("use_steam_login"@, bool_text(e.use_steam_login)),
            ("auto_start"@, bool_text(e.auto_start)),
            ("auto_restart"@, bool_text(e.auto_restart)),
            ("auto_update"@, bool_text(e.auto_update)),
            ("update_on_start"@, bool_text(e.update_on_start)),
        ]
        + optional_field("restart_schedule"@, opt_view(e.restart_schedule))
}

/// The values a list of form fields holds under `key`, in order.
pub open spec fn values_under(fields: Seq<(Seq<char>, Seq<char>)>, key: Seq<char>) -> Seq<Seq<char>>
    decreases fields.len(),
{
    if fields.len() == 0 {
        seq![]
    } else {
        let rest = values_under(fields.drop_last(), key);
        if fields.last().0 == key {
            rest.push(fields.last().1)
        } else {
            rest
        }
    }
}

/// The value of an optional field as a list: one value, or none.
pub open spec fn opt_values(v: Option<Seq<char>>) -> Seq<Seq<char>> {
    match v {
        Some(s) => seq![s],
        None => seq![],
    }
}

proof fn lemma_values_under_concat(a: Seq<(Seq<char>, Seq<char>)>, b: Seq<(Seq<char>, Seq<char>)>, key: Seq<char>)
    ensures
        values_under(a + b, key) == values_under(a, key) + values_under(b, key),
    decreases b.len(),
{
    if b.len() == 0 {
        assert(a + b =~= a);
        assert(values_under(a, key) + values_under(b, key) =~= values_under(a, key));
    } else {
        lemma_values_under_concat(a, b.drop_last(), key);
        assert((a + b).drop_last() =~= a + b.drop_last());
        assert((a + b).last() == b.last());
        if b.last().0 == key {
            assert((values_under(a, key) + values_under(b.drop_last(), key)).push(b.last().1)
                =~= values_under(a, key) + values_under(b.drop_last(), key).push(b.last().1));
        }
    }
}

proof fn lemma_values_under_one(k: Seq<char>, v: Seq<char>, key: Seq<char>)
    ensures
        values_under(seq![(k, v)], key) == (if k == key { seq![v] } else { Seq::<Seq<char>>::empty() }),
{
    let f = seq![(k, v)];
    assert(f.drop_last() =~= Seq::<(Seq<char>, Seq<char>)>::empty());
    assert(values_under(f.drop_last(), key) == Seq::<Seq<char>>::empty());
    assert(f.last() == (k, v));
    assert(Seq::<Seq<char>>::empty().push(v) =~= seq![v]);
}

proof fn lemma_values_under_optional(k: Seq<char>, v: Option<Seq<char>>, key: Seq<char>)
    ensures
        values_under(optional_field(k, v), key) == (if k == key { opt_values(v) } else { Seq::<Seq<char>>::empty() }),
{
    match v {
        Some(x) => lemma_values_under_one(k, x, key),
        None => {},
    }
}

/// The values under `key` of the fields `(k, v)` when `k` is `key`, else none.
pub open spec fn one_if(k: Seq<char>, v: Seq<char>, key: Seq<char>) -> Seq<Seq<char>> {
    if k == key {
        seq![v]
    } else {
        seq![]
    }
}

/// The values under `key` of an optional field `k`, when `k` is `key`, else none.
pub open spec fn opt_if(k: Seq<char>, v: Option<Seq<char>>, key: Seq<char>) -> Seq<Seq<char>> {
    if k == key {
        opt_values(v)
    } else {
        seq![]
    }
}

proof fn lemma_values_of_form(e: TemplateExport, key: Seq<char>)
    ensures
        values_under(form_fields(e), key) == one_if("name"@, e.name@, key)
            + one_if("app_id"@, signed_decimal(e.app_id as int), key)
            + opt_if("description"@, opt_view(e.description), key)
            + opt_if("server_mod"@, opt_view(e.server_mod), key)
            + opt_if("beta_branch"@, opt_view(e.beta_branch), key)
            + opt_if("boot_script"@, opt_view(e.boot_script), key)
            + one_if("use_steam_login"@, bool_text(e.use_steam_login), key)
            + one_if("auto_start"@, bool_text(e.auto_start), key)
            + one_if("auto_restart"@, bool_text(e.auto_restart), key)
            + one_if("auto_update"@, bool_text(e.auto_update), key)
            + one_if("update_on_start"@, bool_text(e.update_on_start), key)
            + opt_if("restart_schedule"@, opt_view(e.restart_schedule), key),
{
    let p0 = seq![("name"@, e.name@)];
    let p1 = seq![("app_id"@, signed_decimal(e.app_id as int))];
    let o2 = optional_field("description"@, opt_view(e.description));
    let o3 = optional_field("server_mod"@, opt_view(e.server_mod));
    let o4 = optional_field("beta_branch"@, opt_view(e.beta_branch));
    let o5 = optional_field("boot_script"@, opt_view(e.boot_script));
    let b6 = seq![("use_steam_login"@, bool_text(e.use_steam_login))];
    let b7 = seq![("auto_start"@, bool_text(e.auto_start))];
    let b8 = seq![("auto_restart"@, bool_text(e.auto_restart))];
    let b9 = seq![("auto_update"@, bool_text(e.auto_update))];
    let b10 = seq![("update_on_start"@, bool_text(e.update_on_start))];
    let o11 = optional_field("restart_schedule"@, opt_view(e.restart_schedule));
    let q1 = p0 + p1;
    let q2 = q1 + o2;
    let q3 = q2 + o3;
    let q4 = q3 + o4;
    let q5 = q4 + o5;
    let q6 = q5 + b6;
    let q7 = q6 + b7;
    let q8 = q7 + b8;
    let q9 = q8 + b9;
    let q10 = q9 + b10;
    let q11 = q10 + o11;
    assert(form_fields(e) =~= q11);
    lemma_values_under_one("name"@, e.name@, key);
    lemma_values_under_one("app_id"@, signed_decimal(e.app_id as int), key);
    lemma_values_under_concat(p0, p1, key);
    let v1 = one_if("name"@, e.name@, key) + one_if("app_id"@, signed_decimal(e.app_id as int), key);
    assert(values_under(q1, key) == v1);
    lemma_values_under_optional("description"@, opt_view(e.description), key);
    lemma_values_under_concat(q1, o2, key);
    let v2 = v1 + opt_if("description"@, opt_view(e.description), key);
    assert(values_under(q2, key) == v2);
    lemma_values_under_optional("server_mod"@, opt_view(e.server_mod), key);
    lemma_values_under_concat(q2, o3, key);
    let v3 = v2 + opt_if("server_mod"@, opt_view(e.server_mod), key);
    assert(values_under(q3, key) == v3);
    lemma_values_under_optional("beta_branch"@, opt_view(e.beta_branch), key);
    lemma_values_under_concat(q3, o4, key);
    let v4 = v3 + opt_if("beta_branch"@, opt_view(e.beta_branch), key);
    assert(values_under(q4, key) == v4);
    lemma_values_under_optional("boot_script"@, opt_view(e.boot_script), key);
    lemma_values_under_concat(q4, o5, key);
    let v5 = v4 + opt_if("boot_script"@, opt_view(e.boot_script), key);
    assert(values_under(q5, key) == v5);
    lemma_values_under_one("use_steam_login"@, bool_text(e.use_steam_login), key);
    lemma_values_under_concat(q5, b6, key);
    let v6 = v5 + one_if("use_steam_login"@, bool_text(e.use_steam_login), key);
    assert(values_under(q6, key) == v6);
    lemma_values_under_one("auto_start"@, bool_text(e.auto_start), key);
    lemma_values_under_concat(q6, b7, key);
    let v7 = v6 + one_if("auto_start"@, bool_text(e.auto_start), key);
    assert(values_under(q7, key) == v7);
    lemma_values_under_one("auto_restart"@, bool_text(e.auto_restart), key);
    lemma_values_under_concat(q7, b8, key);
    let v8 = v7 + one_if("auto_restart"@, bool_text(e.auto_restart), key);
    assert(values_under(q8, key) == v8);
    lemma_values_under_one("auto_update"@, bool_text(e.auto_update), key);
    lemma_values_under_concat(q8, b9, key);
    let v9 = v8 + one_if("auto_update"@, bool_text(e.auto_update), key);
    assert(values_under(q9, key) == v9);
    lemma_values_under_one("update_on_start"@, bool_text(e.update_on_start), key);
    lemma_values_under_concat(q9, b10, key);
    let v10 = v9 + one_if("update_on_start"@, bool_text(e.update_on_start), key);
    assert(values_under(q10, key) == v10);
    lemma_values_under_optional("restart_schedule"@, opt_view(e.restart_schedule), key);
    lemma_values_under_concat(q10, o11, key);
}

proof fn lemma_form_keys()
    ensures
        "name"@.len() == 4,
        "app_id"@.len() == 6,
        "description"@.len() == 11 && "description"@[0] == 'd',
        "server_mod"@.len() == 10 && "server_mod"@[0] == 's',
        "beta_branch"@.len() == 11 && "beta_branch"@[0] == 'b' && "beta_branch"@[1] == 'e',
        "boot_script"@.len() == 11 && "boot_script"@[0] == 'b' && "boot_script"@[1] == 'o',
        "use_steam_login"@.len() == 15 && "use_steam_login"@[1] == 's',
        "auto_start"@.len() == 10 && "auto_start"@[0] == 'a',
        "auto_restart"@.len() == 12,
        "auto_update"@.len() == 11 && "auto_update"@[0] == 'a',
        "update_on_start"@.len() == 15 && "update_on_start"@[1] == 'p',
        "restart_schedule"@.len() == 16,
{
    reveal_strlit("name");
    reveal_strlit("app_id");
    reveal_strlit("description");
    reveal_strlit("server_mod");
    reveal_strlit("beta_branch");
    reveal_strlit("boot_script");
    reveal_strlit("use_steam_login");
    reveal_strlit("auto_start");
    reveal_strlit("auto_restart");
    reveal_strlit("auto_update");
    reveal_strlit("update_on_start");
    reveal_strlit("restart_schedule");
}

/// Importing a template fills each form field from its own part of the
/// export, once: under `name` and `app_id` their values; under each optional
/// field (description, mod, beta branch, boot script, restart schedule) its
/// value when present and nothing when absent; under each flag `true` or
/// `false`. No field is dropped, repeated or filled from another.
pub proof fn lemma_form_data_carries_every_field(e: TemplateExport)
    ensures
        values_under(form_fields(e), "name"@) == seq![e.name@],
        values_under(form_fields(e), "app_id"@) == seq![signed_decimal(e.app_id as int)],
        values_under(form_fields(e), "description"@) == opt_values(opt_view(e.description)),
        values_under(form_fields(e), "server_mod"@) == opt_values(opt_view(e.server_mod)),
        values_under(form_fields(e), "beta_branch"@) == opt_values(opt_view(e.beta_branch)),
        values_under(form_fields(e), "boot_script"@) == opt_values(opt_view(e.boot_script)),
        values_under(form_fields(e), "use_steam_login"@) == seq![bool_text(e.use_steam_login)],
        values_under(form_fields(e), "auto_start"@) == seq![bool_text(e.auto_start)],
        values_under(form_fields(e), "auto_restart"@) == seq![bool_text(e.auto_restart)],
        values_under(form_fields(e), "auto_update"@) == seq![bool_text(e.auto_update)],
        values_under(form_fields(e), "update_on_start"@) == seq![bool_text(e.update_on_start)],
        values_under(form_fields(e), "restart_schedule"@) == opt_values(opt_view(e.restart_schedule)),
{
    lemma_form_keys();
    lemma_values_of_form(e, "name"@);
    lemma_values_of_form(e, "app_id"@);
    lemma_values_of_form(e, "description"@);
    lemma_values_of_form(e, "server_mod"@);
    lemma_values_of_form(e, "beta_branch"@);
    lemma_values_of_form(e, "boot_script"@);
    lemma_values_of_form(e, "use_steam_login"@);
    lemma_values_of_form(e, "auto_start"@);
    lemma_values_of_form(e, "auto_restart"@);
    lemma_values_of_form(e, "auto_update"@);
    lemma_values_of_form(e, "update_on_start"@);
    lemma_values_of_form(e, "restart_schedule"@);
    assert(seq![e.name@] + Seq::<Seq<char>>::empty() =~= seq![e.name@]);
}

/// The views of a list of string pairs.
pub open spec fn pairs_view(v: Seq<(String, String)>) -> Seq<(Seq<char>, Seq<char>)> {
    Seq::new(v.len(), |i: int| (v[i].0@, v[i].1@))
}

fn push_pair(v: &mut Vec<(String, String)>, key: &str, value: String)
    ensures
        pairs_view(final(v)@) == pairs_view(old(v)@).push((key@, value@)),
{
    v.push((key.to_string(), value));
    assert(pairs_view(v@) =~= pairs_view(old(v)@).push((key@, value@)));
}

fn push_optional(v: &mut Vec<(String, String)>, key: &str, value: &Option<String>)
    ensures
        pairs_view(final(v)@) == pairs_view(old(v)@) + optional_field(key@, opt_view(*value)),
{
    match value {
        Some(s) => push_pair(v, key, s.clone()),
        None => {
            assert(pairs_view(old(v)@) + optional_field(key@, opt_view(*value)) =~= pairs_view(old(v)@));
        },
    }
}

/// The form data that an imported template fills in, as `(field, value)` pairs.
pub fn export_to_form_data(export: &TemplateExport) -> (r: Vec<(String, String)>)
    ensures
        pairs_view(r@) == form_fields(*export),
{
    let mut map: Vec<(String, String)> = Vec::new();
    assert(pairs_view(map@) =~= seq![]);
    push_pair(&mut map, "name", export.name.clone());
    push_pair(&mut map, "app_id", signed_decimal_string(export.app_id as i64));
    push_optional(&mut map, "description", &export.description);
    push_optional(&mut map, "server_mod", &export.server_mod);
    push_optional(&mut map, "beta_branch", &export.beta_branch);
    push_optional(&mut map, "boot_script", &export.boot_script);
    push_pair(&mut map, "use_steam_login", bool_string(export.use_steam_login));
    push_pair(&mut map, "auto_start", bool_string(export.auto_start));
    push_pair(&mut map, "auto_restart", bool_string(export.auto_restart));
    push_pair(&mut map, "auto_update", bool_string(export.auto_update));
    push_pair(&mut map, "update_on_start", bool_string(export.update_on_start));
    push_optional(&mut map, "restart_schedule", &export.restart_schedule);
    assert(pairs_view(map@) =~= form_fields(*export));
    map
}

/// The validation rules a template record must meet before it is saved.
#[derive(Debug)]
pub struct GameTemplatesValidator {
    pub name: String,
    pub app_id: i32,
}

/// The message of a name of the wrong length.
pub open spec fn name_length_message() -> Seq<char> {
    "Name must be between 2 and 100 characters."@
}

/// The message of an App ID below one.
pub open spec fn app_id_range_message() -> Seq<char> {
    "App ID must be a positive integer."@
}

/// The validation failures of a record, as `(field, message)` pairs in field
/// order: the name must have 2 to 100 characters, the App ID must be at least 1.
pub open spec fn template_issues(name: Seq<char>, app_id: int) -> Seq<(Seq<char>, Seq<char>)> {
    (if 2 <= name.len() <= 100 { seq![] } else { seq![("name"@, name_length_message())] })
        + (if app_id >= 1 { seq![] } else { seq![("app_id"@, app_id_range_message())] })
}

impl GameTemplatesValidator {
    /// Checks the record, returning every failure found.
    pub fn validate(&self) -> (r: Result<(), Vec<(String, String)>>)
        ensures
            template_issues(self.name@, self.app_id as int).len() == 0 ==> r is Ok,
            template_issues(self.name@, self.app_id as int).len() > 0 ==> (r matches Err(v)
                && pairs_view(v@) == template_issues(self.name@, self.app_id as int)),
    {
        let mut issues: Vec<(String, String)> = Vec::new();
        assert(pairs_view(issues@) =~= seq![]);
        let n = chars_of(self.name.as_str()).len();
        if n < 2 || n > 100 {
            push_pair(&mut issues, "name", "Name must be between 2 and 100 characters.".to_string());
        }
        if self.app_id < 1 {
            push_pair(&mut issues, "app_id", "App ID must be a positive integer.".to_string());
        }
        assert(pairs_view(issues@) =~= template_issues(self.name@, self.app_id as int));
        if issues.len() == 0 {
            Ok(())
        } else {
            Err(issues)
        }
    }
}

/// The URL-safe base64 text (no padding) of some bytes.
pub uninterp spec fn b64url_encode(bytes: Seq<u8>) -> Seq<char>;

/// The bytes that URL-safe base64 text (no padding) stands for, if it is valid.
pub uninterp spec fn b64url_decode(text: Seq<u8>) -> Option<Seq<u8>>;

/// A symbol of the URL-safe base64 alphabet: `A`-`Z`, `a`-`z`, `0`-`9`, `-`, `_`.
pub open spec fn url_safe_symbol(c: char) -> bool {
    ('A' <= c <= 'Z') || ('a' <= c <= 'z') || ('0' <= c <= '9') || c == '-' || c == '_'
}

/// `BASE64URL_NOPAD.encode`: the encoding of the input, written with the
/// URL-safe alphabet and no `=` padding, which decodes back to the input.
#[verifier::external_body]
fn b64_encode(bytes: &[u8]) -> (r: String)
    requires
        bytes@.len() <= usize::MAX / 512,
    ensures
        r@ == b64url_encode(bytes@),
        b64url_decode(encode_utf8(r@)) == Some(bytes@),
        forall|i: int| 0 <= i < r@.len() ==> url_safe_symbol(#[trigger] r@[i]),
{
    data_encoding::BASE64URL_NOPAD.encode(bytes)
}

/// `BASE64URL_NOPAD.decode`: the decoding of the input when it is valid, whose
/// encoding is the input again; otherwise the text of the error.
#[verifier::external_body]
fn b64_decode(text: &[u8]) -> (r: Result<Vec<u8>, String>)
    requires
        text@.len() <= usize::MAX / 8,
    ensures
        r is Ok <==> b64url_decode(text@) is Some,
        r matches Ok(b) ==> Some(b@) == b64url_decode(text@) && encode_utf8(b64url_encode(b@)) == text@,
{
    data_encoding::BASE64URL_NOPAD.decode(text).map_err(|e| format!("{e}"))
}

/// What decoding a template string gives: the JSON text its base64 stands
/// for, when that is valid base64 of valid UTF-8.
pub open spec fn decoded_json(s: Seq<char>) -> Option<Seq<char>> {
    match b64url_decode(encode_utf8(s)) {
        Some(b) => if valid_utf8(b) {
            Some(decode_utf8(b))
        } else {
            None
        },
        None => None,
    }
}

/// The template string of exported JSON: the URL-safe base64 (no padding) of
/// its UTF-8 bytes, written only with URL-safe symbols. Decoding it gives
/// back the JSON.
pub fn base64_of_json(json: &str) -> (r: String)
    requires
        encode_utf8(json@).len() <= usize::MAX / 512,
    ensures
        r@ == b64url_encode(encode_utf8(json@)),
        decoded_json(r@) == Some(json@),
        forall|i: int| 0 <= i < r@.len() ==> url_safe_symbol(#[trigger] r@[i]),
{
    b64_encode(json.as_bytes())
}

/// The JSON text of a template string; on failure, the text of the error.
pub fn json_of_base64(s: &str) -> (r: Result<String, String>)
    requires
        encode_utf8(s@).len() <= usize::MAX / 8,
    ensures
        r is Ok <==> decoded_json(s@) is Some,
        r matches Ok(j) ==> decoded_json(s@) == Some(j@),
{
    match b64_decode(s.as_bytes()) {
        Ok(bytes) => {
            let ghost b = bytes@;
            match string_from_utf8(bytes) {
                Ok(j) => {
                    assert(decode_utf8(encode_utf8(j@)) == j@);
                    Ok(j)
                },
                Err(e) => Err(e),
            }
        },
        Err(e) => Err(e),
    }
}

/// The message shown for template data that is empty after trimming.
pub open spec fn empty_import_message() -> Seq<char> {
    "Template data cannot be empty"@
}

/// The template string to import: the submitted data, trimmed, which must
/// not be empty.
pub fn import_data(template_data: &str) -> (r: Result<String, &'static str>)
    ensures
        trim(template_data@).len() > 0 ==> (r matches Ok(s) && s@ == trim(template_data@)),
        trim(template_data@).len() == 0 ==> (r matches Err(m) && m@ == empty_import_message()),
{
    let data = str_trim(template_data);
    if data.as_str().is_empty() {
        Err("Template data cannot be empty")
    } else {
        Ok(data)
    }
}

/// The message shown when decoding an import failed, chosen by the text of the
/// error: a mention of `invalid` or `base64` is an encoding problem, of `EOF`
/// or `expected` malformed JSON, and anything else a generic failure.
pub open spec fn import_error_text(error: Seq<char>) -> Seq<char> {
    if contains_text(error, "invalid"@) || contains_text(error, "base64"@) {
        "Invalid base64 encoding. Please check the template string."@
    } else if contains_text(error, "EOF"@) || contains_text(error, "expected"@) {
        "Malformed JSON in template data. Please check the template string."@
    } else {
        "Failed to decode template. Please check the template string."@
    }
}

/// The message shown for a failed import, given the text of the error.
pub fn import_error_message(error: &str) -> (r: &'static str)
    ensures
        r@ == import_error_text(error@),
{
    if str_contains(error, "invalid") || str_contains(error, "base64") {
        "Invalid base64 encoding. Please check the template string."
    } else if str_contains(error, "EOF") || str_contains(error, "expected") {
        "Malformed JSON in template data. Please check the template string."
    } else {
        "Failed to decode template. Please check the template string."
    }
}

/// The form a template is created or edited with.
#[derive(Debug, Clone)]
pub struct TemplateForm {
    pub name: String,
    pub description: Option<String>,
    pub app_id: String,
    pub server_mod: Option<String>,
    pub beta_branch: Option<String>,
    pub boot_script: Option<String>,
    pub use_steam_login: bool,
    pub auto_start: bool,
    pub auto_restart: bool,
    pub auto_update: bool,
    pub update_on_start: bool,
    pub restart_schedule: Option<String>,
}

/// The values of a template form, once checked: the trimmed name, the App ID,
/// and the optional fields with blank ones left out.
#[derive(Debug, Clone)]
pub struct TemplateFields {
    pub name: String,
    pub description: Option<String>,
    pub app_id: i32,
    pub server_mod: Option<String>,
    pub beta_branch: Option<String>,
    pub boot_script: Option<String>,
    pub use_steam_login: bool,
    pub auto_start: bool,
    pub auto_restart: bool,
    pub auto_update: bool,
    pub update_on_start: bool,
    pub restart_schedule: Option<String>,
}

/// The bad request a form is refused with.
pub open spec fn bad_request(e: StandardError, message: Seq<char>) -> bool {
    e matches StandardError::BadRequest(m) && m@ == message
}

/// What checking a template form gives: the App ID must parse as an `i32`
/// and not be zero, and the name must not be blank; the checked values are
/// the trimmed name, the App ID and the optional fields with blank ones left
/// out.
pub open spec fn template_form_outcome(form: TemplateForm, r: Result<TemplateFields, StandardError>) -> bool {
    let id = parse_signed(form.app_id@, i32::MIN as int, i32::MAX as int);
    &&& id is None ==> (r matches Err(e) && bad_request(e, "Invalid App ID"@))
    &&& id == Some(0int) ==> (r matches Err(e) && bad_request(e, "App ID cannot be zero"@))
    &&& (id is Some && id != Some(0int) && trim(form.name@).len() == 0) ==> (r matches Err(e)
        && bad_request(e, "Name cannot be empty"@))
    &&& id matches Some(n) ==> (n != 0 && trim(form.name@).len() > 0 ==> (r matches Ok(f)
        && f.app_id == n
        && f.name@ == trim(form.name@)
        && opt_view(f.description) == non_blank(opt_view(form.description))
        && opt_view(f.server_mod) == non_blank(opt_view(form.server_mod))
        && opt_view(f.beta_branch) == non_blank(opt_view(form.beta_branch))
        && opt_view(f.boot_script) == non_blank(opt_view(form.boot_script))
        && opt_view(f.restart_schedule) == non_blank(opt_view(form.restart_schedule))
        && f.use_steam_login == form.use_steam_login
        && f.auto_start == form.auto_start
        && f.auto_restart == form.auto_restart
        && f.auto_update == form.auto_update
        && f.update_on_start == form.update_on_start))
}

/// Checks a template form: the App ID must parse as an `i32` and not be zero,
/// and the name must not be blank. Blank optional fields count as absent.
pub fn check_template_form(form: TemplateForm) -> (r: Result<TemplateFields, StandardError>)
    ensures
        template_form_outcome(form, r),
{
    let app_id = match parse_i32(form.app_id.as_str()) {
        Some(n) => n,
        None => return Err(StandardError::BadRequest("Invalid App ID".to_string())),
    };
    if app_id == 0 {
        return Err(StandardError::BadRequest("App ID cannot be zero".to_string()));
    }
    let name = str_trim(form.name.as_str());
    if name.as_str().is_empty() {
        return Err(StandardError::BadRequest("Name cannot be empty".to_string()));
    }
    Ok(TemplateFields {
        name,
        description: drop_blank(form.description),
        app_id,
        server_mod: drop_blank(form.server_mod),
        beta_branch: drop_blank(form.beta_branch),
        boot_script: drop_blank(form.boot_script),
        use_steam_login: form.use_steam_login,
        auto_start: form.auto_start,
        auto_restart: form.auto_restart,
        auto_update: form.auto_update,
        update_on_start: form.update_on_start,
        restart_schedule: drop_blank(form.restart_schedule),
    })
}

/// The first steps of editing a template: a template that does not exist is
/// not found, before the form is looked at; an existing one has its form
/// checked as [`check_template_form`] does.
pub fn check_template_update(existing: &Option<Model>, form: TemplateForm) -> (r: Result<TemplateFields, StandardError>)
    ensures
        existing is None ==> (r matches Err(e) && e matches StandardError::NotFound(m) && m@ == "Template not found"@),
        existing is Some ==> template_form_outcome(form, r),
{
    match existing {
        None => Err(StandardError::NotFound("Template not found".to_string())),
        Some(_) => check_template_form(form),
    }
}

impl TemplateFields {
    /// The record these values describe, under the given id.
    pub fn to_model(&self, id: i32) -> (r: Model)
        ensures
            r.id == id,
            r.name == self.name,
            r.description == self.description,
            r.app_id == self.app_id,
            r.server_mod == self.server_mod,
            r.beta_branch == self.beta_branch,
            r.boot_script == self.boot_script,
            r.use_steam_login == self.use_steam_login,
            r.auto_start == self.auto_start,
            r.auto_restart == self.auto_restart,
            r.auto_update == self.auto_update,
            r.update_on_start == self.update_on_start,
            r.restart_schedule == self.restart_schedule,
    {
        Model {
            id,
            name: self.name.clone(),
            description: clone_opt(&self.description),
            app_id: self.app_id,
            server_mod: clone_opt(&self.server_mod),
            beta_branch: clone_opt(&self.beta_branch),
            boot_script: clone_opt(&self.boot_script),
            use_steam_login: self.use_steam_login,
            auto_start: self.auto_start,
            auto_restart: self.auto_restart,
            auto_update: self.auto_update,
            update_on_start: self.update_on_start,
            restart_schedule: clone_opt(&self.restart_schedule),
        }
    }
}

/// Whether a name is free for a template: no template holds it, or only the
/// template being edited does.
pub fn name_is_free(existing_id: Option<i32>, editing_id: Option<i32>) -> (r: bool)
    ensures
        r == match existing_id {
            None => true,
            Some(e) => editing_id == Some(e),
        },
{
    match existing_id {
        None => true,
        Some(e) => match editing_id {
            Some(id) => e == id,
            None => false,
        },
    }
}

/// A new template's form, prefilled from a game server.
#[derive(Debug)]
pub struct ServerTemplateView {
    pub name: String,
    pub app_id: i32,
    pub server_mod: Option<String>,
    pub beta_branch: Option<String>,
    pub boot_script: Option<String>,
    pub use_steam_login: bool,
    pub auto_start: bool,
    pub auto_restart: bool,
    pub auto_update: bool,
    pub update_on_start: bool,
    pub restart_schedule: Option<String>,
}

/// The view of a template record in listings.
#[derive(Debug)]
pub struct TemplateView<'a> {
    pub inner: &'a Model,
}

impl<'a> TemplateView<'a> {
    /// Wraps a template record.
    pub fn new(template: &'a Model) -> (r: TemplateView<'a>)
        ensures
            r.inner == template,
    {
        TemplateView { inner: template }
    }

    /// The new-template form prefilled from a server: named
    /// `Template from {server name}`, with the server's App ID, options and flags.
    pub fn new_from_server(server: &crate::game_servers::Model) -> (r: ServerTemplateView)
        ensures
            r.name@ == "Template from "@ + server.name@,
            r.app_id == server.app_id,
            r.server_mod == server.server_mod,
            r.beta_branch == server.beta_branch,
            r.boot_script == server.boot_script,
            r.use_steam_login == server.use_steam_login,
            r.auto_start == server.auto_start,
            r.auto_restart == server.auto_restart,
            r.auto_update == server.auto_update,
            r.update_on_start == server.update_on_start,
            r.restart_schedule == server.restart_schedule,
    {
        ServerTemplateView {
            name: crate::text::cat("Template from ", server.name.as_str()),
            app_id: server.app_id,
            server_mod: clone_opt(&server.server_mod),
            beta_branch: clone_opt(&server.beta_branch),
            boot_script: clone_opt(&server.boot_script),
            use_steam_login: server.use_steam_login,
            auto_start: server.auto_start,
            auto_restart: server.auto_restart,
            auto_update: server.auto_update,
            update_on_start: server.update_on_start,
            restart_schedule: clone_opt(&server.restart_schedule),
        }
    }
}

} // verus!
