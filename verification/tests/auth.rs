use sha2::Digest;
use vash_server::auth::{
    check_permissions, credential_source, generate, Auth, AuthState, ConnAuth, Credential,
    CredentialFile, CredentialSource, CredentialTable, Given, Limits, LoadError, Mechanism,
    DEFAULT_NAME, MIN_SECRET_LEN, SECRET_ENV,
};
use vash_server::config::AuthConfig;
use vash_server::credentials::{
    credential_line, hex, parse, parse_hex32, validate_name, HexError, NameError,
};

/// Long enough to pass the length floor.
const SECRET: &str = "hunter2hunter2hu";

/// The SHA-256 digest of `abc`, in hex.
const ABC: &str = "ba7816bf8f01cfea414140de5dae2223b00361a396177a9cb410ff61f20015ad";

fn digest_line(name: &str, secret: &str) -> String {
    format!("{name}  sha256:{}", hex(&digest_of(secret)))
}

/// The digest that a table made for a secret holds.
fn digest_of(secret: &str) -> [u8; 32] {
    sha2::Sha256::digest(secret.as_bytes()).into()
}

#[test]
fn a_digest_row_verifies_its_secret() {
    let table = parse(&digest_line("default", SECRET)).unwrap();
    let auth = Auth::with_table(true, table);

    let identity = auth.verify(b"default", SECRET.as_bytes()).unwrap();
    assert_eq!(identity.name(), "default");
    assert!(auth.verify(b"default", b"wrong").is_none());
    assert!(auth.verify(b"nobody", SECRET.as_bytes()).is_none());
}

#[test]
fn comments_and_blank_lines_are_skipped() {
    let text = format!(
        "# a comment\n\n   \n{}\n   # indented comment\n{}\n",
        digest_line("one", SECRET),
        digest_line("two", SECRET)
    );
    assert_eq!(parse(&text).unwrap().len(), 2);
}

#[test]
fn columns_may_be_aligned_with_any_run_of_whitespace() {
    let text = format!("padded\t\t  sha256:{}", hex(&digest_of(SECRET)));
    assert!(parse(&text).unwrap().contains_key(b"padded".as_slice()));
}

#[test]
fn every_malformed_line_is_a_hard_error() {
    let digest = hex(&digest_of(SECRET));
    let cases: &[(&str, &str)] = &[
        ("lonely", "only one field"),
        ("name sha256", "no algorithm"),
        ("name deadbeef", "no algorithm"),
        ("name md5:0123", "unknown algorithm"),
        ("name sha256:xyz", "not 64 characters"),
        ("name sha256:0123", "too short"),
        ("bad name here sha256:x", "space in the name"),
        ("name! sha256:x", "illegal name character"),
        ("", "handled as blank, never reaches here"),
    ];
    for (line, why) in cases {
        if line.is_empty() {
            continue;
        }
        assert!(
            parse(line).is_err(),
            "expected {line:?} to be refused ({why})"
        );
    }

    assert!(parse(&format!("name sha256:{}", digest.to_uppercase())).is_err());
    assert!(parse(&format!("name sha256:{digest} role=peer")).is_err());
    assert!(parse(&format!("n sha256:{digest}\nn sha256:{digest}")).is_err());
}

#[test]
fn modular_crypt_is_refused_by_name() {
    let chain = parse("admin $5$rounds=5000$salt$hash").unwrap_err().message();
    assert!(chain.contains("modular crypt"), "{chain}");
}

#[test]
fn an_hmac_key_row_is_refused_while_the_mechanism_is_unbuilt() {
    let line = format!("peer hmac-sha256-key:{}", hex(&[7u8; 32]));
    let error = parse(&line).unwrap_err().message();
    assert!(error.contains("not built"), "{error}");
}

#[test]
fn a_key_row_can_never_satisfy_plain() {
    let key = [7u8; 32];
    let mut table = CredentialTable::new();
    assert!(table.insert(
        "peer",
        Credential {
            mechanism: Mechanism::HmacSha256,
            value: key,
        },
    ));
    let auth = Auth::with_table(true, table);

    assert!(auth.verify(b"peer", &key).is_none());
    assert!(auth.verify(b"peer", hex(&key).as_bytes()).is_none());
}

#[test]
fn error_messages_name_the_line() {
    let good = digest_line("ok", SECRET);
    let error = parse(&format!("{good}\nbroken\n")).unwrap_err().message();
    assert!(error.contains("line 2"), "{error}");
}

#[test]
fn a_generated_line_verifies_its_own_secret() {
    let (secret, line) = generate("billing-api").unwrap();
    assert!(secret.len() >= MIN_SECRET_LEN);

    let auth = Auth::with_table(true, parse(&line).unwrap());
    assert!(auth.verify(b"billing-api", secret.as_bytes()).is_some());
    assert!(auth.verify(b"billing-ap", secret.as_bytes()).is_none());
}

#[test]
fn a_generated_line_does_not_hold_its_secret() {
    let (secret, line) = generate("api").unwrap();
    assert!(!line.contains(&secret));
    assert!(line.starts_with("api  sha256:"));
}

#[test]
fn two_generated_secrets_differ() {
    let (a, _) = generate("x").unwrap();
    let (b, _) = generate("x").unwrap();
    assert_ne!(a, b);
}

#[test]
fn a_known_digest_is_what_is_stored() {
    let table = parse(&format!("n sha256:{ABC}")).unwrap();
    let auth = Auth::with_table(true, table);
    assert!(auth.verify(b"n", b"abc").is_some());
    assert!(auth.verify(b"n", b"abd").is_none());
    assert!(auth.verify(b"n", ABC.as_bytes()).is_none());
}

#[test]
fn a_generated_secret_is_the_one_the_line_was_made_of() {
    let (secret, line) = generate("api").unwrap();
    assert_eq!(secret.len(), 64);
    assert_eq!(line, digest_line("api", &secret));

    let (secret, line) = credential_line("api", &[0xabu8; 32]).unwrap();
    assert_eq!(secret, "ab".repeat(32));
    assert_eq!(line, digest_line("api", &secret));
}

#[test]
fn a_bad_name_is_never_generated_for() {
    assert_eq!(
        generate("").unwrap_err().message(),
        "name is 0 bytes; it must be 1 to 64"
    );
    assert_eq!(
        generate("a b").unwrap_err().message(),
        "name contains ' '; only [A-Za-z0-9_.-] is allowed"
    );
}

#[test]
fn names_are_bounded_and_plain() {
    assert!(validate_name("a").is_ok());
    assert!(validate_name("A-z_0.9").is_ok());
    assert!(validate_name(&"n".repeat(64)).is_ok());
    assert!(matches!(validate_name(&"n".repeat(65)), Err(NameError::Length(65))));
    assert!(matches!(validate_name("ü"), Err(NameError::Character('ü'))));
    // Counted in bytes, not characters.
    assert!(matches!(validate_name(&"ü".repeat(33)), Err(NameError::Length(66))));
}

#[test]
fn each_row_fault_has_its_message() {
    let digest = hex(&digest_of(SECRET));
    let messages = [
        (
            "lonely".to_string(),
            "on line 1: \"lonely\": expected `<name> <algorithm>:<value>`, but the line has only one field",
        ),
        (
            format!("n sha256:{digest} role=x"),
            "unknown trailing field \"role=x\". No `key=value` fields are defined yet; they are reserved",
        ),
        (
            "n bare".to_string(),
            "\"bare\" has no algorithm. Expected `sha256:<64 hex>`",
        ),
        (
            "n md5:00".to_string(),
            "unknown algorithm \"md5\". Known: `sha256`.",
        ),
        (
            "n sha256:00".to_string(),
            "expected 64 hex characters, found 2",
        ),
        (
            format!("n sha256:{}", "g".repeat(64)),
            "\"gg\" is not hex: invalid digit found in string",
        ),
        (
            format!("n sha256:{}", "A".repeat(64)),
            "hex must be lowercase",
        ),
        (
            format!("n sha256:{digest}\nn sha256:{digest}"),
            "duplicate name \"n\"",
        ),
        ("n! sha256:x".to_string(), "name contains '!'"),
    ];
    for (text, expected) in messages {
        let message = parse(&text).unwrap_err().message();
        assert!(message.contains(expected), "{message}");
    }
}

#[test]
fn hex_is_read_back_as_it_was_written() {
    let bytes: [u8; 32] = std::array::from_fn(|i| (i * 7 + 3) as u8);
    let text = hex(&bytes);
    assert_eq!(text.len(), 64);
    assert!(text.starts_with("030a11"));
    assert_eq!(parse_hex32(&text).unwrap(), bytes);
}

#[test]
fn there_is_one_way_to_write_a_value() {
    let text = "0f".repeat(32);
    assert_eq!(parse_hex32(&text).unwrap(), [15u8; 32]);
    // A sign is no hex digit.
    assert!(matches!(parse_hex32(&"+f".repeat(32)), Err(HexError::NotHex(_))));
    assert!(matches!(parse_hex32(&"0F".repeat(32)), Err(HexError::Uppercase)));
    let split = format!("a{}a", "ü".repeat(31));
    assert_eq!(split.len(), 64);
    assert!(matches!(parse_hex32(&split), Err(HexError::SplitCharacter)));
}

#[test]
fn a_mechanism_is_one_byte() {
    assert_eq!(Mechanism::from_u8(0), Some(Mechanism::Plain));
    assert_eq!(Mechanism::from_u8(1), Some(Mechanism::HmacSha256));
    assert_eq!(Mechanism::from_u8(2), None);
}

#[test]
fn a_failed_attempt_is_not_a_logout() {
    let auth = Auth::for_test(true, "default", SECRET.as_bytes());
    let mut conn = ConnAuth::default();
    assert!(!conn.is_authenticated());
    conn.fail();
    conn.succeed(auth.verify(b"default", SECRET.as_bytes()).unwrap());
    conn.fail();
    assert!(conn.is_authenticated());
    assert_eq!(conn.identity().unwrap().name(), "default");
    assert_eq!(conn.failures(), 2);
}

#[test]
fn a_loose_credential_file_is_refused() {
    assert!(check_permissions(None).is_ok());
    assert!(check_permissions(Some(0o100600)).is_ok());
    let error = check_permissions(Some(0o100644)).unwrap_err();
    assert_eq!(
        error.message("/etc/vash"),
        "the credential file /etc/vash is mode 644; it must not be readable by group or other. \
         Run: chmod 600 /etc/vash"
    );
}

#[test]
fn credentials_come_from_one_place() {
    let mut config = AuthConfig::default();
    assert!(matches!(
        credential_source(&config, false),
        Ok(CredentialSource::Nowhere)
    ));
    assert!(matches!(
        credential_source(&config, true),
        Ok(CredentialSource::Environment)
    ));
    config.file = "creds".to_string();
    assert!(matches!(
        credential_source(&config, false),
        Ok(CredentialSource::File)
    ));
    let error = credential_source(&config, true).unwrap_err();
    assert!(matches!(error, LoadError::BothSources));
    assert!(error.message("").starts_with("both auth.file and VASH_AUTH_SECRET are set"));
    assert_eq!(SECRET_ENV, "VASH_AUTH_SECRET");
}

#[test]
fn a_secret_from_the_environment_is_the_default_identity() {
    let config = AuthConfig::default();
    let auth = Auth::load(&config, Given::Secret(SECRET.as_bytes())).unwrap();
    assert!(!auth.required());
    assert!(auth.configured());
    assert!(auth.verify(DEFAULT_NAME.as_bytes(), SECRET.as_bytes()).is_some());
}

#[test]
fn a_file_is_loaded_whole_or_not_at_all() {
    let mut config = AuthConfig::default();
    config.required = true;
    config.file = "creds".to_string();
    let text = format!("{}\n{}\n", digest_line("a", SECRET), digest_line("b", SECRET));
    let file = CredentialFile {
        text,
        mode: Some(0o100600),
    };
    let auth = Auth::load(&config, Given::File(&file)).unwrap();
    assert!(auth.required());
    assert!(auth.verify(b"b", SECRET.as_bytes()).is_some());

    let broken = CredentialFile {
        text: format!("{}\nbroken\n", digest_line("a", SECRET)),
        mode: Some(0o100600),
    };
    let error = Auth::load(&config, Given::File(&broken)).unwrap_err();
    let message = error.message("creds");
    assert!(message.contains("creds"), "{message}");
    assert!(message.contains("line 2"), "{message}");
}

#[test]
fn requiring_what_nobody_can_present_is_refused() {
    let mut config = AuthConfig::default();
    config.required = true;
    let error = Auth::load(&config, Given::Nothing).unwrap_err();
    assert!(matches!(error, LoadError::NothingConfigured));
    assert!(error.message("").starts_with("auth.required is set but no credentials"));
}

#[test]
fn a_short_secret_is_refused() {
    let config = AuthConfig::default();
    let error = Auth::load(&config, Given::Secret(b"1234")).unwrap_err();
    assert!(matches!(error, LoadError::SecretTooShort(4)));
    assert!(error.message("").starts_with("VASH_AUTH_SECRET is 4 bytes; the minimum is 16."));
}

#[test]
fn a_reload_replaces_the_table_and_keeps_the_budget() {
    let limits = Limits {
        timeout_ms: 5,
        max_attempts: 2,
        max_connections: 3,
    };
    let mut state = AuthState::new(Auth::default(), limits);
    assert!(!state.required());
    state.replace(Auth::for_test(true, "n", SECRET.as_bytes()));
    assert!(state.required());
    assert!(state.current().verify(b"n", SECRET.as_bytes()).is_some());
    assert_eq!(state.limits().max_connections, 3);
}

#[test]
fn only_a_stranger_to_an_enforcing_server_is_gated() {
    let mut conn = ConnAuth::default();
    assert!(conn.gated(true));
    assert!(!conn.gated(false));
    let auth = Auth::for_test(true, "app", SECRET.as_bytes());
    conn.succeed(auth.verify(b"app", SECRET.as_bytes()).unwrap());
    assert!(!conn.gated(true));
    assert!(!conn.gated(false));
}
