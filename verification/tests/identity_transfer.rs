use fact_cli::errors::FactError;
use fact_cli::identity_transfer::{
    identity_export_envelope, identity_export_file, identity_import_bundle_from_envelope,
    identity_import_is_envelope, IdentityExportEnvelope,
};

#[test]
fn export_without_directory_is_the_bare_bundle() {
    let bundle = vec![0xa1u8, 0x02, 0x03];
    assert_eq!(identity_export_file(&bundle, None).unwrap(), bundle);
}

#[test]
fn export_with_directory_reads_back_on_import() {
    let identity = b"identity bytes".to_vec();
    let directory = br#"{"events":[]}"#.to_vec();
    let file = identity_export_file(&identity, Some(&directory)).unwrap();
    assert!(identity_import_is_envelope(&file));
    let value: serde_json::Value = serde_json::from_slice(&file).unwrap();
    assert_eq!(value["schema"], "fact-identity-bundle-v0");
    let envelope = IdentityExportEnvelope {
        schema: value["schema"].as_str().unwrap().to_owned(),
        identity_bundle: value["identity_bundle"].as_str().unwrap().to_owned(),
        directory_bundle: value["directory_bundle"].as_str().map(str::to_owned),
    };
    let imported = identity_import_bundle_from_envelope(&envelope).unwrap();
    assert_eq!(imported.identity_bundle, identity);
    assert_eq!(imported.directory_bundle, Some(directory.clone()));
    let made = identity_export_envelope(&identity, &directory);
    assert_eq!(made.identity_bundle, envelope.identity_bundle);
    assert_eq!(
        String::from_utf8(file).unwrap(),
        format!(
            "{{\n  \"schema\": \"fact-identity-bundle-v0\",\n  \"identity_bundle\": \"{}\",\n  \"directory_bundle\": \"{}\"\n}}",
            envelope.identity_bundle,
            envelope.directory_bundle.unwrap()
        )
    );
}

#[test]
fn import_envelope_errors() {
    assert!(identity_import_is_envelope(b"  \n{\"schema\":1}"));
    assert!(!identity_import_is_envelope(b"\xa1\x02"));
    assert!(!identity_import_is_envelope(b"   "));
    let wrong = IdentityExportEnvelope {
        schema: "other".into(),
        identity_bundle: "AA".into(),
        directory_bundle: None,
    };
    match identity_import_bundle_from_envelope(&wrong) {
        Err(FactError::User(m)) => assert_eq!(m, "identity import expected an identity bundle"),
        other => panic!("unexpected: {:?}", other.map(|b| b.identity_bundle)),
    }
    let bad = IdentityExportEnvelope {
        schema: "fact-identity-bundle-v0".into(),
        identity_bundle: "AA".into(),
        directory_bundle: Some("***".into()),
    };
    match identity_import_bundle_from_envelope(&bad) {
        Err(FactError::User(m)) => assert_eq!(m, "directory_bundle contains invalid base64url"),
        other => panic!("unexpected: {:?}", other.map(|b| b.identity_bundle)),
    }
    let plain = IdentityExportEnvelope {
        schema: "fact-identity-bundle-v0".into(),
        identity_bundle: "aGk".into(),
        directory_bundle: None,
    };
    let imported = identity_import_bundle_from_envelope(&plain).unwrap();
    assert_eq!(imported.identity_bundle, b"hi".to_vec());
    assert_eq!(imported.directory_bundle, None);
}
