use flexpart_gpu::reference::{
    check_pinned_commit, verify_checkout, ReferenceError, ReferenceManifest,
};

const PINNED_COMMIT: &str = "c70586c2b7f5258850705325881c61f557ea9bd8";

fn sample_manifest_json() -> String {
    format!(
        r#"{{
  "name": "FLEXPART",
  "version": "11.1",
  "role": "oracle",
  "upstream_repository": "https://gitlab.phaidra.org/flexpart/flexpart",
  "pinned_tag": "v11.1",
  "pinned_commit": "{PINNED_COMMIT}",
  "license": "GPL-3.0-or-later",
  "license_url": "https://example.invalid/LICENSE",
  "source_requirement": "unmodified",
  "notes": []
}}"#
    )
}

fn text(value: &serde_json::Value, key: &str) -> String {
    value.get(key).and_then(|v| v.as_str()).expect("string field").to_string()
}

/// Reads the sample document with `serde_json` and checks it as the library
/// checks a parsed manifest.
fn parse_manifest(json: &str) -> Result<ReferenceManifest, ReferenceError> {
    let value: serde_json::Value = serde_json::from_str(json)
        .map_err(|e| ReferenceError::ParseManifest { message: e.to_string() })?;
    let manifest = ReferenceManifest {
        name: text(&value, "name"),
        version: text(&value, "version"),
        role: text(&value, "role"),
        upstream_repository: text(&value, "upstream_repository"),
        pinned_tag: text(&value, "pinned_tag"),
        pinned_commit: text(&value, "pinned_commit"),
        license: text(&value, "license"),
        license_url: text(&value, "license_url"),
        source_requirement: text(&value, "source_requirement"),
        notes: Vec::new(),
    };
    manifest.validate()?;
    Ok(manifest)
}

#[test]
fn test_bundled_manifest_pins_flexpart_11_1_oracle() {
    let manifest = ReferenceManifest::bundled().expect("bundled manifest loads");
    assert_eq!(manifest.name, "FLEXPART");
    assert_eq!(manifest.version, "11.1");
    assert_eq!(manifest.pinned_tag, "v11.1");
    assert_eq!(manifest.pinned_commit, PINNED_COMMIT);
}

#[test]
fn test_manifest_parse_accepts_valid_document() {
    let manifest = parse_manifest(&sample_manifest_json()).expect("valid manifest");
    assert_eq!(manifest.pinned_commit, PINNED_COMMIT);
}

#[test]
fn test_manifest_validate_rejects_short_commit() {
    let mut manifest = parse_manifest(&sample_manifest_json()).expect("valid manifest");
    manifest.pinned_commit = "c70586c".to_string();
    let error = manifest.validate().expect_err("must reject short hash");
    assert!(matches!(error, ReferenceError::InvalidManifest { .. }));
}

#[test]
fn test_manifest_validate_rejects_empty_tag() {
    let mut manifest = parse_manifest(&sample_manifest_json()).expect("valid manifest");
    manifest.pinned_tag = "  ".to_string();
    assert!(manifest.validate().is_err());
}

#[test]
fn test_check_pinned_commit_accepts_exact_match() {
    let checkout = "/tmp/oracle";
    check_pinned_commit(checkout, PINNED_COMMIT, &format!("{PINNED_COMMIT}\n"))
        .expect("exact match with trailing newline");
}

#[test]
fn test_check_pinned_commit_rejects_mismatch() {
    let checkout = "/tmp/oracle";
    let error = check_pinned_commit(
        checkout,
        PINNED_COMMIT,
        "0000000000000000000000000000000000000000",
    )
    .expect_err("must reject");
    let rendered = error.to_message();
    assert!(rendered.contains(PINNED_COMMIT), "unexpected: {rendered}");
}

#[test]
fn validate_messages_name_the_field() {
    let mut manifest = ReferenceManifest::bundled().expect("bundled");
    manifest.version = " \t".to_string();
    match manifest.validate() {
        Err(ReferenceError::InvalidManifest { message }) => {
            assert_eq!(message, "manifest field `version` must not be empty")
        }
        other => panic!("unexpected: {other:?}"),
    }
    let mut manifest = ReferenceManifest::bundled().expect("bundled");
    manifest.pinned_commit = format!(" {} ", "g".repeat(40));
    match manifest.validate() {
        Err(ReferenceError::InvalidManifest { message }) => {
            assert_eq!(message, "pinned_commit must be a full 40-character hex SHA-1")
        }
        other => panic!("unexpected: {other:?}"),
    }
    let mut manifest = ReferenceManifest::bundled().expect("bundled");
    manifest.pinned_commit = format!("  {}\n", PINNED_COMMIT.to_uppercase());
    assert!(manifest.validate().is_ok());
}

#[test]
fn abbreviated_hash_never_matches() {
    assert!(check_pinned_commit("/x", PINNED_COMMIT, "c70586c").is_err());
    assert!(check_pinned_commit("/x", " c70586c ", "c70586c\n").is_ok());
}

#[test]
fn checkout_verification_outcomes() {
    let manifest = ReferenceManifest::bundled().expect("bundled");
    let ok = verify_checkout(&manifest, "/ref", Ok(format!("{PINNED_COMMIT}\n")), Ok("\n".to_string()))
        .expect("clean checkout at the pinned commit");
    assert_eq!(ok.path, "/ref");
    assert_eq!(ok.commit, PINNED_COMMIT);

    let empty = verify_checkout(&manifest, "/ref", Ok("  \n".to_string()), Ok(String::new()));
    assert_eq!(
        empty.expect_err("empty head").to_message(),
        "reference checkout `/ref` is not a git work tree: `git rev-parse HEAD` produced no output"
    );

    let other = verify_checkout(&manifest, "/ref", Ok("abc\n".to_string()), Ok(String::new()));
    match other {
        Err(ReferenceError::CommitMismatch { path, expected, actual }) => {
            assert_eq!(path, "/ref");
            assert_eq!(expected, PINNED_COMMIT);
            assert_eq!(actual, "abc");
        }
        other => panic!("unexpected: {other:?}"),
    }

    let dirty = verify_checkout(
        &manifest,
        "/ref",
        Ok(PINNED_COMMIT.to_string()),
        Ok(" M src/a.f90\n".to_string()),
    );
    match dirty {
        Err(ReferenceError::DirtyWorkTree { status, .. }) => assert_eq!(status, "M src/a.f90"),
        other => panic!("unexpected: {other:?}"),
    }

    let failed = verify_checkout(
        &manifest,
        "/ref",
        Err(ReferenceError::GitFailed { path: "/ref".to_string(), reason: "no git".to_string() }),
        Ok(String::new()),
    );
    assert_eq!(
        failed.expect_err("git failed").to_message(),
        "failed to run `git` for checkout `/ref`: no git"
    );
}

#[test]
fn test_verify_checkout_rejects_missing_directory() {
    let manifest = ReferenceManifest::bundled().expect("bundled manifest loads");
    let missing = "target/definitely-not-a-checkout-12345";
    // `git -C` in a directory that does not exist exits unsuccessfully.
    let head = Err(ReferenceError::NotAGitCheckout {
        path: missing.to_string(),
        reason: format!("cannot change to '{missing}': No such file or directory"),
    });
    let error = verify_checkout(&manifest, missing, head, Ok(String::new()))
        .expect_err("must reject");
    let rendered = error.to_message();
    assert!(
        rendered.contains("not a git work tree") || rendered.contains("cannot execute"),
        "unexpected: {rendered}"
    );
}
