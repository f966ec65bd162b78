use layanow::bundle::{
    bundle_dir, bundle_files, cache_dir, check_digest, check_size, digest_hex, download_step,
    ensure_bundle, ensure_bundle_from, expect_file, file_url, hash_contents, is_complete,
    is_present, manifest_from_listing, manifest_url, part_path, to_hex, verify_bundle_from, verify_file, BundleError,
    BundleStep, Checksum, DownloadStep, ExpectedFile, FileOnDisk, Manifest, ManifestEntry,
    ALLOW_DOWNLOAD_ENV, DEFAULT_REPO,
};

const HELLO_SHA256: &str = "2cf24dba5fb0a30e26e83b2ac5b9e29e1b161e5c1fa7425e73043362938b9824";
const HELLO_BLOB_SHA1: &str = "b6fc4c620b67d95f953a5c1c1230aaab5db5a1b0";
const BRACES_BLOB_SHA1: &str = "9e26dfeeb6e641a33dae4961196235bdb965b21b";

fn entry(kind: &str, path: &str, size: u64, lfs: Option<&str>, oid: Option<&str>) -> ManifestEntry {
    ManifestEntry {
        kind: Some(kind.to_string()),
        path: Some(path.to_string()),
        size: Some(size),
        lfs_oid: lfs.map(str::to_string),
        oid: oid.map(str::to_string),
    }
}

fn sha256_file(size: u64, hex: &str) -> ExpectedFile {
    ExpectedFile { size, checksum: Checksum::Sha256(hex.to_string()) }
}

fn blob_file(size: u64, hex: &str) -> ExpectedFile {
    ExpectedFile { size, checksum: Checksum::GitBlobSha1(hex.to_string()) }
}

fn on_disk(contents: &[u8]) -> FileOnDisk {
    FileOnDisk { size: Some(contents.len() as u64), contents: Ok(contents.to_vec()) }
}

/// A manifest listing every bundle file as `hello` (LFS) or `{}` (git blob).
fn manifest() -> Manifest {
    let mut entries = vec![ManifestEntry {
        kind: Some("directory".to_string()),
        path: Some("tokenizer".to_string()),
        size: Some(0),
        lfs_oid: None,
        oid: Some("ignored".to_string()),
    }];
    for file in bundle_files() {
        if file.ends_with(".json") {
            entries.push(entry("file", file, 2, None, Some(BRACES_BLOB_SHA1)));
        } else {
            entries.push(entry("file", file, 5, Some(HELLO_SHA256), Some("a git id")));
        }
    }
    Manifest::from_entries(&entries)
}

fn good_files() -> Vec<FileOnDisk> {
    bundle_files()
        .iter()
        .map(|file| if file.ends_with(".json") { on_disk(b"{}") } else { on_disk(b"hello") })
        .collect()
}

#[test]
fn the_cache_root_honours_the_overrides_in_order() {
    assert_eq!(cache_dir(Some("/models"), Some("/xdg"), Some("/home/u")), "/models");
    assert_eq!(cache_dir(Some(""), Some("/xdg"), Some("/home/u")), "/xdg/layanow/models");
    assert_eq!(cache_dir(None, Some("/xdg/"), Some("/home/u")), "/xdg/layanow/models");
    assert_eq!(cache_dir(None, None, Some("/home/u")), "/home/u/.cache/layanow/models");
    assert_eq!(cache_dir(None, Some(""), None), ".cache/layanow/models");
}

#[test]
fn the_default_bundle_lives_under_the_repo_name() {
    let root = cache_dir(None, None, Some("/home/u"));
    assert_eq!(
        bundle_dir(&root, DEFAULT_REPO),
        "/home/u/.cache/layanow/models/receptron--laya-onnx"
    );
    assert_eq!(bundle_dir("/c", "a/b/c"), "/c/a--b--c");
}

#[test]
fn the_bundle_has_five_files() {
    assert_eq!(
        bundle_files(),
        [
            "laya.onnx",
            "laya.onnx.data",
            "laya_config.json",
            "tokenizer/tokenizer.json",
            "tokenizer/tokenizer_config.json",
        ]
    );
}

#[test]
fn empty_and_missing_files_are_not_present() {
    assert!(is_present(Some(1)));
    assert!(!is_present(Some(0)));
    assert!(!is_present(None));
    assert!(is_complete(&[Some(3), Some(1)]));
    assert!(!is_complete(&[Some(3), Some(0)]));
    assert!(!is_complete(&[None, Some(1)]));
}

#[test]
fn a_complete_bundle_is_used_without_downloading() {
    let sizes = [Some(1); 5];
    assert_eq!(
        ensure_bundle("/c", &sizes, None),
        Ok(BundleStep::Cached("/c/receptron--laya-onnx".to_string()))
    );
}

#[test]
fn a_missing_bundle_needs_the_opt_in() {
    let sizes = [Some(1), None, Some(1), Some(1), Some(1)];
    let error = ensure_bundle_from("/c", "org/model", &sizes, None).unwrap_err();
    assert_eq!(
        error,
        BundleError::BundleMissing { path: "/c/org--model".to_string(), env: ALLOW_DOWNLOAD_ENV }
    );
    assert_eq!(
        error.message(),
        "Laya bundle not found at /c/org--model; rerun with LAYANOW_ALLOW_MODEL_DOWNLOAD=1 to download it, or place the bundle files there manually"
    );
    assert!(ensure_bundle_from("/c", "org/model", &sizes, Some("")).is_err());
    assert_eq!(
        ensure_bundle_from("/c", "org/model", &sizes, Some("1")),
        Ok(BundleStep::Download("/c/org--model".to_string()))
    );
}

#[test]
fn urls_and_paths_follow_the_hub_layout() {
    assert_eq!(
        manifest_url("receptron/laya-onnx"),
        "https://huggingface.co/api/models/receptron/laya-onnx/tree/main?recursive=true"
    );
    assert_eq!(
        file_url("receptron/laya-onnx", "tokenizer/tokenizer.json"),
        "https://huggingface.co/receptron/laya-onnx/resolve/main/tokenizer/tokenizer.json"
    );
    assert_eq!(part_path("/b", "laya.onnx.data"), "/b/laya.onnx.data.part");
}

#[test]
fn hex_is_lowercase_two_digits_per_byte() {
    assert_eq!(to_hex(&[0x00, 0x0f, 0xa5, 0xff]), "000fa5ff");
    assert_eq!(to_hex(&[]), "");
}

#[test]
fn lfs_files_hash_with_sha256_and_blobs_with_the_git_header() {
    assert_eq!(hash_contents(&sha256_file(5, "x"), b"hello"), HELLO_SHA256);
    assert_eq!(hash_contents(&blob_file(5, "x"), b"hello"), HELLO_BLOB_SHA1);
    // The header carries the expected size, not the length read.
    assert_eq!(
        hash_contents(&blob_file(7, "x"), b"hello"),
        "12241f38414900be551e2c1e384ed18db6608671"
    );
    assert_eq!(digest_hex(&Checksum::GitBlobSha1("abc".to_string())), "abc");
}

#[test]
fn a_size_mismatch_reports_bytes() {
    let expected = sha256_file(5, HELLO_SHA256);
    assert_eq!(check_size("f", &expected, Some(5)), Ok(()));
    let error = check_size("f", &expected, None).unwrap_err();
    assert_eq!(
        error,
        BundleError::ChecksumMismatch {
            file: "f".to_string(),
            expected: "5 bytes".to_string(),
            actual: "0 bytes".to_string(),
        }
    );
    assert_eq!(error.message(), "integrity check failed for f: expected 5 bytes, got 0 bytes");
}

#[test]
fn a_digest_mismatch_reports_both_digests() {
    let expected = sha256_file(5, HELLO_SHA256);
    assert_eq!(check_digest("f", &expected, b"hello"), Ok(()));
    match check_digest("f", &expected, b"jello").unwrap_err() {
        BundleError::ChecksumMismatch { file, expected, actual } => {
            assert_eq!(file, "f");
            assert_eq!(expected, HELLO_SHA256);
            assert_ne!(actual, HELLO_SHA256);
            assert_eq!(actual.len(), 64);
        }
        other => panic!("unexpected {other:?}"),
    }
}

#[test]
fn a_read_error_follows_a_matching_size() {
    let expected = sha256_file(5, HELLO_SHA256);
    let disk = FileOnDisk { size: Some(5), contents: Err("permission denied".to_string()) };
    let error = verify_file("f", &expected, &disk).unwrap_err();
    assert_eq!(error, BundleError::Io("permission denied".to_string()));
    assert_eq!(error.message(), "i/o error: permission denied");
    let short = FileOnDisk { size: Some(4), contents: Err("unread".to_string()) };
    assert!(matches!(verify_file("f", &expected, &short), Err(BundleError::ChecksumMismatch { .. })));
}

#[test]
fn the_manifest_keeps_files_with_an_object_id_and_prefers_lfs() {
    let manifest = manifest();
    assert_eq!(manifest.len(), 5);
    let graph = expect_file(&manifest, "laya.onnx").expect("listed");
    assert_eq!(graph, &sha256_file(5, HELLO_SHA256));
    let config = expect_file(&manifest, "laya_config.json").expect("listed");
    assert_eq!(config, &blob_file(2, BRACES_BLOB_SHA1));
    let error = expect_file(&manifest, "tokenizer").unwrap_err();
    assert_eq!(error, BundleError::ManifestMissing("tokenizer".to_string()));
    assert_eq!(error.message(), "model manifest has no entry for tokenizer");
}

#[test]
fn the_last_listing_of_a_path_wins() {
    let entries = vec![
        entry("file", "laya.onnx", 1, Some("old"), None),
        entry("file", "laya.onnx", 2, Some("new"), None),
        ManifestEntry { kind: None, path: Some("x".to_string()), size: Some(1), lfs_oid: None, oid: Some("o".to_string()) },
        entry("file", "y", 1, None, None),
    ];
    let manifest = Manifest::from_entries(&entries);
    assert_eq!(expect_file(&manifest, "laya.onnx"), Ok(&sha256_file(2, "new")));
    assert!(expect_file(&manifest, "x").is_err());
    assert!(expect_file(&manifest, "y").is_err());
}

#[test]
fn a_matching_bundle_verifies() {
    assert_eq!(verify_bundle_from(&manifest(), &good_files()), Ok(()));
}

#[test]
fn missing_files_fail_verification() {
    let mut files = good_files();
    files[1] = FileOnDisk { size: None, contents: Err("not found".to_string()) };
    let error = verify_bundle_from(&manifest(), &files).unwrap_err();
    assert_eq!(
        error,
        BundleError::ChecksumMismatch {
            file: "laya.onnx.data".to_string(),
            expected: "5 bytes".to_string(),
            actual: "0 bytes".to_string(),
        }
    );
}

#[test]
fn the_first_failing_file_decides() {
    let mut files = good_files();
    files[2] = on_disk(b"[]");
    files[4] = FileOnDisk { size: None, contents: Err("gone".to_string()) };
    match verify_bundle_from(&manifest(), &files).unwrap_err() {
        BundleError::ChecksumMismatch { file, expected, .. } => {
            assert_eq!(file, "laya_config.json");
            assert_eq!(expected, BRACES_BLOB_SHA1);
        }
        other => panic!("unexpected {other:?}"),
    }
    let empty = Manifest::from_entries(&[]);
    assert_eq!(
        verify_bundle_from(&empty, &good_files()),
        Err(BundleError::ManifestMissing("laya.onnx".to_string()))
    );
}

#[test]
fn download_steps_keep_replace_or_fetch() {
    let expected = sha256_file(5, HELLO_SHA256);
    assert_eq!(download_step(Some(5), &expected), DownloadStep::Keep);
    assert_eq!(download_step(Some(4), &expected), DownloadStep::Replace);
    assert_eq!(download_step(Some(0), &expected), DownloadStep::Fetch);
    assert_eq!(download_step(None, &expected), DownloadStep::Fetch);
}

#[test]
fn network_errors_display_helpfully() {
    assert_eq!(
        BundleError::Download("https://x: timed out".to_string()).message(),
        "model download failed: https://x: timed out"
    );
    assert_eq!(
        BundleError::Manifest("https://x: 404".to_string()).message(),
        "could not read the model file manifest: https://x: 404"
    );
}

#[test]
fn a_listing_body_becomes_the_manifest() {
    let body = r#"[
        {"type": "file", "path": "laya.onnx", "size": 5, "oid": "a git id", "lfs": {"oid": "2cf24dba5fb0a30e26e83b2ac5b9e29e1b161e5c1fa7425e73043362938b9824", "size": 5}},
        {"type": "file", "path": "tokenizer/tokenizer.json", "size": 2, "oid": "9e26dfeeb6e641a33dae4961196235bdb965b21b"},
        {"type": "directory", "path": "tokenizer", "size": 0, "oid": "a tree id"}
    ]"#;
    let manifest = manifest_from_listing("https://example.com/tree", body).unwrap();
    assert_eq!(
        expect_file(&manifest, "laya.onnx"),
        Ok(&ExpectedFile { size: 5, checksum: Checksum::Sha256(HELLO_SHA256.to_string()) })
    );
    assert_eq!(
        expect_file(&manifest, "tokenizer/tokenizer.json"),
        Ok(&ExpectedFile { size: 2, checksum: Checksum::GitBlobSha1(BRACES_BLOB_SHA1.to_string()) })
    );
    assert_eq!(
        expect_file(&manifest, "tokenizer"),
        Err(BundleError::ManifestMissing("tokenizer".to_string()))
    );
}

#[test]
fn a_listing_that_is_not_an_array_is_a_manifest_error() {
    let url = "https://example.com/tree";
    for body in ["not json", "{\"path\": \"laya.onnx\"}", ""] {
        match manifest_from_listing(url, body) {
            Err(BundleError::Manifest(message)) => {
                assert!(message.starts_with("https://example.com/tree: "), "{message}");
                assert!(message.len() > url.len() + 2, "{message}");
            }
            other => panic!("expected a manifest error for {body:?}, got {other:?}"),
        }
    }
}
