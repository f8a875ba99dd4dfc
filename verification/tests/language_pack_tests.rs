use ryu_core::language_packs::{
    check_import_body, check_package_envelope, decode_import_body, valid_locale, valid_text,
    validate_language_pack_manifest, validate_pack, validate_package_files, ImportRefusal,
    LanguagePack, PackError, PackageManifest,
};

fn pack(id: &str, version: &str) -> LanguagePack {
    LanguagePack {
        base_locale: "en".to_string(),
        direction: "ltr".to_string(),
        id: id.to_string(),
        locale: "en".to_string(),
        messages: vec![("common.install".to_string(), "Install".to_string())],
        name: "Example".to_string(),
        schema_version: 1,
        version: version.to_string(),
    }
}

fn files() -> Vec<(String, usize)> {
    vec![("language-pack.json".to_string(), 200)]
}

fn message_of(r: Result<(), PackError>) -> String {
    match r {
        Ok(()) => String::new(),
        Err(e) => e.message(),
    }
}

#[test]
fn validates_a_language_pack_artifact_against_the_install_record() {
    let p = pack("example-online", "1.0.0");
    assert!(validate_package_files("language_pack", "example-online", "1.0.0", &files(), &Some(p)).is_ok());
    let p = pack("example-online", "v1.0.0");
    assert!(validate_pack(&p, "example-online", " 1.0.0 ").is_ok());
    assert_eq!(p.locale, "en");
    assert_eq!(p.messages[0].1, "Install");
}

#[test]
fn rejects_identity_mismatch_and_invalid_direction() {
    let p = pack("example-online", "1.0.0");
    let err = message_of(validate_package_files("language_pack", "other-pack", "1.0.0", &files(), &Some(p)));
    assert!(err.contains("identity"));
    let mut p = pack("example-online", "1.0.0");
    p.direction = "sideways".to_string();
    let err = message_of(validate_package_files("language_pack", "example-online", "1.0.0", &files(), &Some(p)));
    assert!(err.contains("direction"));
}

#[test]
fn rejects_control_characters_consistently_with_the_client_validator() {
    let mut p = pack("example-online", "1.0.0");
    p.messages = vec![("common.install".to_string(), "Install\u{007f}".to_string())];
    let err = message_of(validate_package_files("language_pack", "example-online", "1.0.0", &files(), &Some(p)));
    assert!(err.contains("invalid message"));
    assert!(valid_text("Line one\nline two\ttab", 100));
    assert!(!valid_text("bell\u{0007}", 100));
    assert!(!valid_text("  ", 100));
    assert!(!valid_text("abcdef", 5));
}

#[test]
fn locale_shape_matches_the_runtime_contract() {
    assert!(valid_locale("en"));
    assert!(valid_locale("en-x-online"));
    assert!(valid_locale("zh-Hant"));
    assert!(!valid_locale("e"));
    assert!(!valid_locale("en-u"));
    assert!(!valid_locale("x-private"));
    assert!(!valid_locale("EN_us"));
}

#[test]
fn rejects_extra_language_pack_artifacts() {
    let mut fs = files();
    fs.push(("README.md".to_string(), 14));
    let err = message_of(validate_package_files(
        "language_pack",
        "example-online",
        "1.0.0",
        &fs,
        &Some(pack("example-online", "1.0.0")),
    ));
    assert!(err.contains("only"));
}

#[test]
fn envelope_errors_in_order() {
    assert!(matches!(check_package_envelope("app", &files()), Err(PackError::NotALanguagePack(_))));
    assert_eq!(
        message_of(check_package_envelope("app", &files()).map(|_| ())),
        "package kind `app` is not a language pack"
    );
    assert!(matches!(check_package_envelope("language_pack", &vec![]), Err(PackError::MissingArtifact)));
    assert!(matches!(
        check_package_envelope("language_pack", &vec![("language-pack.json".to_string(), 5_000_000)]),
        Err(PackError::TooLarge)
    ));
    assert!(matches!(
        validate_package_files("language_pack", "x", "1", &files(), &None),
        Err(PackError::NotJson)
    ));
    let mut p = pack("example-online", "1.0.0");
    p.schema_version = 2;
    assert!(matches!(validate_pack(&p, "example-online", "1.0.0"), Err(PackError::SchemaVersion)));
    let mut p = pack("example-online", "1.0.0");
    p.messages = vec![("__proto__".to_string(), "x".to_string())];
    assert!(matches!(validate_pack(&p, "example-online", "1.0.0"), Err(PackError::InvalidMessage)));
}

#[test]
fn manifests_must_be_data_only() {
    let manifest = |caps: usize| PackageManifest {
        kind: "language_pack".to_string(),
        id: "example-online".to_string(),
        version: "v1.0.0".to_string(),
        artifacts: vec!["language-pack.json".to_string()],
        capability_count: caps,
        permission_count: 0,
        contains_secrets: false,
        private_content: false,
    };
    assert!(validate_language_pack_manifest("language_pack", "example-online", "1.0.0", &manifest(0)).is_ok());
    assert!(matches!(
        validate_language_pack_manifest("language_pack", "example-online", "1.0.0", &manifest(1)),
        Err(PackError::UnsafePackage)
    ));
}

#[test]
fn import_bodies_are_checked_then_decoded() {
    assert!(matches!(check_import_body("  "), Err(ImportRefusal::Missing)));
    assert!(check_import_body("UEsDBA==").is_ok());
    assert_eq!(decode_import_body("aGVsbG8=").ok().unwrap(), b"hello".to_vec());
    match decode_import_body("not base64!") {
        Err(ImportRefusal::Invalid { message }) => assert!(message.starts_with("archive_base64 is invalid: ")),
        _ => panic!("expected an invalid archive"),
    }
    let big = "A".repeat(11_185_837);
    assert!(matches!(decode_import_body(&big), Err(ImportRefusal::TooLarge)));
}
