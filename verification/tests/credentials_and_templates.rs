use game_smith::credentials::{open_login, seal_login, ENC_VERSION};
use game_smith::installer::GameServerError;
use chacha20poly1305::aead::{Aead, KeyInit};
use game_smith::encryption::{generate_key_bytes, EncryptionError, EncryptionKey};
use game_smith::errors::StandardError;
use game_smith::templates::{
    base64_of_json, check_template_form, check_template_update, export_to_form_data, import_data, import_error_message,
    json_of_base64, model_to_export, name_is_free, GameTemplatesValidator, Model, TemplateForm,
    TemplateView,
};

fn key() -> EncryptionKey {
    let bytes: Vec<u8> = (0u8..32).collect();
    EncryptionKey::from_bytes(&bytes).ok().expect("32 bytes are a key")
}

#[test]
fn key_file_of_wrong_size_is_refused() {
    match EncryptionKey::from_bytes(&[1, 2, 3, 4, 5]) {
        Err(e) => assert_eq!(
            e.message(),
            "secret key error: secret key file must be exactly 32 bytes, got 5"
        ),
        Ok(_) => panic!("a five-byte key was accepted"),
    }
}

#[test]
fn decrypting_an_encryption_gives_back_the_text() {
    let k = key();
    let (nonce, ciphertext) = k.encrypt("hunter2").ok().expect("encryption succeeds");
    assert_eq!(nonce.len(), 24);
    assert_eq!(ciphertext.len(), "hunter2".len() + 16);
    assert_ne!(&ciphertext[..7], b"hunter2");
    assert_eq!(k.decrypt(&nonce, &ciphertext).ok(), Some("hunter2".to_string()));
}

#[test]
fn encryption_under_a_given_nonce_is_deterministic() {
    let k = key();
    let (n1, c1) = k.encrypt_with_nonce(vec![7u8; 24], "secret").ok().unwrap();
    let (n2, c2) = k.encrypt_with_nonce(vec![7u8; 24], "secret").ok().unwrap();
    assert_eq!(n1, n2);
    assert_eq!(c1, c2);
    let (_, c3) = k.encrypt_with_nonce(vec![8u8; 24], "secret").ok().unwrap();
    assert_ne!(c1, c3);
}

#[test]
fn a_nonce_of_the_wrong_size_fails_decryption() {
    let k = key();
    let (_, ciphertext) = k.encrypt("x").ok().unwrap();
    match k.decrypt(&[0u8; 12], &ciphertext) {
        Err(e) => {
            assert!(matches!(e, EncryptionError::DecryptionFailed));
            assert_eq!(e.message(), "decryption failed: aead::Error");
        }
        Ok(_) => panic!("a short nonce was accepted"),
    }
}

#[test]
fn tampered_ciphertext_fails_decryption() {
    let k = key();
    let (nonce, mut ciphertext) = k.encrypt("password").ok().unwrap();
    ciphertext[0] ^= 1;
    assert!(matches!(k.decrypt(&nonce, &ciphertext), Err(EncryptionError::DecryptionFailed)));
}

#[test]
fn another_key_fails_decryption() {
    let (nonce, ciphertext) = key().encrypt("password").ok().unwrap();
    let other = EncryptionKey::from_bytes(&[9u8; 32]).ok().unwrap();
    assert!(matches!(other.decrypt(&nonce, &ciphertext), Err(EncryptionError::DecryptionFailed)));
}

#[test]
fn decrypted_bytes_that_are_not_utf8_are_reported() {
    let raw: Vec<u8> = (0u8..32).collect();
    let cipher = chacha20poly1305::XChaCha20Poly1305::new(raw.as_slice().into());
    let nonce = [3u8; 24];
    let ciphertext = cipher.encrypt((&nonce).into(), &[0xffu8, 0xfe][..]).unwrap();
    match key().decrypt(&nonce, &ciphertext) {
        Err(e) => {
            assert!(matches!(e, EncryptionError::InvalidUtf8(_)));
            assert!(e.message().starts_with("decrypted value is not valid UTF-8: "));
        }
        Ok(_) => panic!("invalid UTF-8 was accepted"),
    }
}

#[test]
fn generated_keys_have_32_bytes() {
    let bytes = generate_key_bytes().ok().expect("the random source works");
    assert_eq!(bytes.len(), 32);
    assert!(EncryptionKey::from_bytes(&bytes).is_ok());
}

fn template() -> Model {
    Model {
        id: 3,
        name: "CS2".to_string(),
        description: Some("Counter-Strike".to_string()),
        app_id: 730,
        server_mod: None,
        beta_branch: Some("public".to_string()),
        boot_script: None,
        use_steam_login: true,
        auto_start: false,
        auto_restart: true,
        auto_update: false,
        update_on_start: false,
        restart_schedule: Some("0 0 4 * * *".to_string()),
    }
}

#[test]
fn export_carries_version_one_and_every_field() {
    let e = model_to_export(&template());
    assert_eq!(e.version, 1);
    assert_eq!(e.name, "CS2");
    assert_eq!(e.description.as_deref(), Some("Counter-Strike"));
    assert_eq!(e.app_id, 730);
    assert_eq!(e.beta_branch.as_deref(), Some("public"));
    assert!(e.use_steam_login && e.auto_restart && !e.auto_start);
    assert_eq!(e.restart_schedule.as_deref(), Some("0 0 4 * * *"));
}

#[test]
fn form_data_lists_present_fields_in_order() {
    let fields = export_to_form_data(&model_to_export(&template()));
    let pairs: Vec<(&str, &str)> = fields.iter().map(|(k, v)| (k.as_str(), v.as_str())).collect();
    assert_eq!(
        pairs,
        vec![
            ("name", "CS2"),
            ("app_id", "730"),
            ("description", "Counter-Strike"),
            ("beta_branch", "public"),
            ("use_steam_login", "true"),
            ("auto_start", "false"),
            ("auto_restart", "true"),
            ("auto_update", "false"),
            ("update_on_start", "false"),
            ("restart_schedule", "0 0 4 * * *"),
        ]
    );
}

#[test]
fn form_data_writes_negative_app_ids() {
    let mut t = template();
    t.app_id = -12;
    let fields = export_to_form_data(&model_to_export(&t));
    assert_eq!(fields[1], ("app_id".to_string(), "-12".to_string()));
}

#[test]
fn validator_reports_each_broken_rule() {
    let ok = GameTemplatesValidator { name: "ok".to_string(), app_id: 1 };
    assert!(ok.validate().is_ok());
    let bad = GameTemplatesValidator { name: "x".to_string(), app_id: 0 };
    let issues = bad.validate().err().unwrap();
    assert_eq!(
        issues,
        vec![
            ("name".to_string(), "Name must be between 2 and 100 characters.".to_string()),
            ("app_id".to_string(), "App ID must be a positive integer.".to_string()),
        ]
    );
    let long = GameTemplatesValidator { name: "é".repeat(101), app_id: 5 };
    assert_eq!(long.validate().err().unwrap().len(), 1);
    let hundred = GameTemplatesValidator { name: "é".repeat(100), app_id: 5 };
    assert!(hundred.validate().is_ok());
}

#[test]
fn template_strings_are_url_safe_base64_of_the_json() {
    let s = base64_of_json("{\"a\":1}");
    assert_eq!(s, "eyJhIjoxfQ");
    assert_eq!(json_of_base64(&s).ok(), Some("{\"a\":1}".to_string()));
    let unicode = "{\"name\":\"caf\u{e9} \u{2615}\"}";
    assert_eq!(json_of_base64(&base64_of_json(unicode)).ok(), Some(unicode.to_string()));
}

#[test]
fn bad_template_strings_are_refused() {
    let e = json_of_base64("not base64!").err().unwrap();
    assert!(e.contains("invalid"));
    assert_eq!(
        import_error_message(&e),
        "Invalid base64 encoding. Please check the template string."
    );
    assert!(json_of_base64("_w").is_err());
}

#[test]
fn import_errors_are_classified_by_their_text() {
    assert_eq!(
        import_error_message("EOF while parsing a value at line 1 column 0"),
        "Malformed JSON in template data. Please check the template string."
    );
    assert_eq!(
        import_error_message("expected value at line 1 column 1"),
        "Malformed JSON in template data. Please check the template string."
    );
    assert_eq!(
        import_error_message("non-zero trailing bits at 2"),
        "Failed to decode template. Please check the template string."
    );
}

#[test]
fn import_data_is_trimmed_and_required() {
    assert_eq!(import_data("  abc \n").ok(), Some("abc".to_string()));
    assert_eq!(import_data(" \t ").err(), Some("Template data cannot be empty"));
}

fn form(app_id: &str, name: &str) -> TemplateForm {
    TemplateForm {
        name: name.to_string(),
        description: Some("   ".to_string()),
        app_id: app_id.to_string(),
        server_mod: Some(" czero ".to_string()),
        beta_branch: None,
        boot_script: Some("".to_string()),
        use_steam_login: false,
        auto_start: true,
        auto_restart: false,
        auto_update: false,
        update_on_start: true,
        restart_schedule: None,
    }
}

fn bad_request_text(e: StandardError) -> String {
    match e {
        StandardError::BadRequest(m) => m,
        _ => panic!("expected a bad request"),
    }
}

#[test]
fn template_forms_are_checked() {
    assert_eq!(bad_request_text(check_template_form(form("abc", "x")).err().unwrap()), "Invalid App ID");
    assert_eq!(bad_request_text(check_template_form(form("0", "x")).err().unwrap()), "App ID cannot be zero");
    assert_eq!(bad_request_text(check_template_form(form("+0", "x")).err().unwrap()), "App ID cannot be zero");
    assert_eq!(bad_request_text(check_template_form(form("7", "  ")).err().unwrap()), "Name cannot be empty");
    let f = check_template_form(form("-40", "  My Template ")).ok().unwrap();
    assert_eq!(f.app_id, -40);
    assert_eq!(f.name, "My Template");
    assert_eq!(f.description, None);
    assert_eq!(f.server_mod.as_deref(), Some(" czero "));
    assert_eq!(f.boot_script, None);
    assert!(f.auto_start && f.update_on_start && !f.use_steam_login);
    let m = f.to_model(0);
    assert_eq!(m.id, 0);
    assert_eq!(m.name, "My Template");
}

#[test]
fn template_names_are_free_unless_another_template_holds_them() {
    assert!(name_is_free(None, None));
    assert!(!name_is_free(Some(4), None));
    assert!(name_is_free(Some(4), Some(4)));
    assert!(!name_is_free(Some(4), Some(5)));
}

#[test]
fn templates_made_from_servers_are_named_after_them() {
    let server = game_smith::game_servers::Model {
        id: 1,
        app_id: 90,
        name: "Old HLDS".to_string(),
        install_dir: "/srv/hlds".to_string(),
        platform: "linux".to_string(),
        status: "stopped".to_string(),
        boot_script: Some("./hlds_run".to_string()),
        auto_start: true,
        auto_restart: false,
        auto_update: true,
        update_on_start: false,
        restart_schedule: None,
        last_error: None,
        server_mod: Some("czero".to_string()),
        beta_branch: None,
        use_steam_login: false,
        template_id: None,
    };
    let v = TemplateView::new_from_server(&server);
    assert_eq!(v.name, "Template from Old HLDS");
    assert_eq!(v.app_id, 90);
    assert_eq!(v.server_mod.as_deref(), Some("czero"));
    assert_eq!(v.boot_script.as_deref(), Some("./hlds_run"));
    assert!(v.auto_start && v.auto_update);
}

#[test]
fn stored_logins_read_back_with_the_same_key() {
    let k = key();
    let record = seal_login(&k, 1, "gaben".to_string(), "pa ss").ok().unwrap();
    assert_eq!(record.enc_version, ENC_VERSION);
    assert_eq!(record.nonce.len(), 24);
    let (user, pass) = open_login(&record, &k).ok().unwrap();
    assert_eq!(user, "gaben");
    assert_eq!(pass, "pa ss");
    let other = EncryptionKey::from_bytes(&[1u8; 32]).ok().unwrap();
    match open_login(&record, &other) {
        Err(e) => {
            assert!(matches!(e, GameServerError::SteamCredentials(EncryptionError::DecryptionFailed)));
            assert_eq!(e.message(), "failed to decrypt Steam credentials: decryption failed: aead::Error");
        }
        Ok(_) => panic!("another key opened the login"),
    }
}

#[test]
fn template_strings_use_only_url_safe_symbols() {
    let s = base64_of_json("{\"q\":\"??>>~~\"}");
    assert!(!s.is_empty());
    assert!(s.chars().all(|c| c.is_ascii_alphanumeric() || c == '-' || c == '_'));
    assert!(s.contains('_') || s.contains('-'));
}

#[test]
fn editing_a_missing_template_is_not_found_before_the_form_is_checked() {
    match check_template_update(&None, form("not a number", "")) {
        Err(StandardError::NotFound(m)) => assert_eq!(m, "Template not found"),
        _ => panic!("expected not found"),
    }
    match check_template_update(&Some(template()), form("not a number", "x")) {
        Err(e) => assert_eq!(bad_request_text(e), "Invalid App ID"),
        Ok(_) => panic!("expected a bad request"),
    }
    let f = check_template_update(&Some(template()), form("740", "  Named  ")).ok().unwrap();
    assert_eq!(f.name, "Named");
    assert_eq!(f.app_id, 740);
}

#[test]
fn ciphertexts_are_sixteen_bytes_longer_than_the_text() {
    let k = key();
    let (_, c) = k.encrypt_with_nonce(vec![1u8; 24], "").ok().unwrap();
    assert_eq!(c.len(), 16);
    let (_, c) = k.encrypt_with_nonce(vec![1u8; 24], "caf\u{e9}").ok().unwrap();
    assert_eq!(c.len(), 5 + 16);
}
