use std::io::Write;

use tool_locator::envbuild::{
    build_enhanced_path,
    filter_env_pairs,
    is_inherited_env_key,
    nvm_bin_override,
    parent_dir,
    prepend_dir_to_path,
};
use tool_locator::installer::{
    bundled_install_path,
    classify_download,
    extract_tar_archive,
    extract_zip_archive,
    find_binary_entry,
    ArchiveEntry,
    ArchiveFormat,
    EXEC_MODE,
};

fn tar_bytes_with(path: &str, data: &[u8]) -> Vec<u8> {
    let mut out: Vec<u8> = Vec::new();
    {
        let mut builder = tar::Builder::new(&mut out);
        let mut header = tar::Header::new_gnu();
        header.set_size(data.len() as u64);
        header.set_mode(0o644);
        header.set_cksum();
        builder.append_data(&mut header, path, data).unwrap();
        builder.finish().unwrap();
    }
    out
}

fn xz_compress(data: &[u8]) -> Vec<u8> {
    let mut enc = xz2::write::XzEncoder::new(Vec::new(), 6);
    enc.write_all(data).unwrap();
    enc.finish().unwrap()
}

fn gz_compress(data: &[u8]) -> Vec<u8> {
    let mut enc = flate2::write::GzEncoder::new(Vec::new(), flate2::Compression::default());
    enc.write_all(data).unwrap();
    enc.finish().unwrap()
}

fn zip_bytes_with(path: &str, data: &[u8]) -> Vec<u8> {
    let mut cursor = std::io::Cursor::new(Vec::new());
    {
        let mut zw = zip::ZipWriter::new(&mut cursor);
        let opts = zip::write::SimpleFileOptions::default();
        zw.start_file(path, opts).unwrap();
        zw.write_all(data).unwrap();
        zw.finish().unwrap();
    }
    cursor.into_inner()
}

#[test]
fn classify_by_suffix() {
    assert_eq!(classify_download("node-v20.11.0-linux-x64.tar.xz"), Some(ArchiveFormat::Tar));
    assert_eq!(classify_download("node-v20.11.0-linux-x64.tar.gz"), Some(ArchiveFormat::Tar));
    assert_eq!(classify_download("node-v20.11.0-win-x64.zip"), Some(ArchiveFormat::Zip));
    assert_eq!(classify_download("node-v20.11.0.pkg"), None);
}

#[test]
fn tar_xz_archive_yields_binary_bytes() {
    let body = b"#!/usr/bin/env fake-node";
    let archive = xz_compress(&tar_bytes_with("node-v20.11.0/bin/node", body));
    let bytes = extract_tar_archive(&archive, "node").unwrap();
    assert_eq!(bytes, body.to_vec());
}

#[test]
fn tar_gz_archive_is_the_fallback_codec() {
    let body = b"gzip-compressed runtime";
    let archive = gz_compress(&tar_bytes_with("node-v21.0.0/bin/node", body));
    let bytes = extract_tar_archive(&archive, "node").unwrap();
    assert_eq!(bytes, body.to_vec());
}

#[test]
fn corrupted_archive_reports_extraction_failure() {
    let garbage = vec![0u8, 1, 2, 3, 4, 5, 6, 7];
    let err = extract_tar_archive(&garbage, "node").unwrap_err();
    assert_eq!(err, "Failed to extract Node.js archive");
}

#[test]
fn archive_without_binary_reports_it_missing() {
    let archive = xz_compress(&tar_bytes_with("node-v20.11.0/README.md", b"docs"));
    let err = extract_tar_archive(&archive, "node").unwrap_err();
    assert_eq!(err, "Node.js binary not found in extracted archive");
}

#[test]
fn zip_archive_yields_binary_bytes() {
    let body = b"MZ fake windows binary";
    let archive = zip_bytes_with("node-v20.11.0/node.exe", body);
    let bytes = extract_zip_archive(&archive, "node.exe").unwrap();
    assert_eq!(bytes, body.to_vec());
}

#[test]
fn zip_binary_is_not_under_a_bin_directory() {
    let body = b"MZ";
    let archive = zip_bytes_with("node-v20.11.0/bin/node.exe", body);
    let err = extract_zip_archive(&archive, "node.exe").unwrap_err();
    assert_eq!(err, "Node.js binary not found in extracted zip archive");
}

#[test]
fn corrupted_zip_reports_read_failure() {
    let garbage = vec![9u8; 16];
    let err = extract_zip_archive(&garbage, "node.exe").unwrap_err();
    assert_eq!(err, "Failed to read zip archive");
}

#[test]
fn installed_binary_mode_is_owner_executable() {
    assert_eq!(EXEC_MODE, 0o755);
}

#[test]
fn install_destination_is_under_bundled_dir() {
    assert_eq!(bundled_install_path("/data/bundled_runtime", "node"), "/data/bundled_runtime/node");
}

#[test]
fn env_allow_list_keeps_locale_and_proxy_variables() {
    assert!(is_inherited_env_key("PATH"));
    assert!(is_inherited_env_key("LC_MESSAGES"));
    assert!(is_inherited_env_key("HTTPS_PROXY"));
    assert!(!is_inherited_env_key("AWS_SECRET_ACCESS_KEY"));
    assert!(!is_inherited_env_key("RANDOM_VAR"));
}

#[test]
fn env_filter_drops_unlisted_variables() {
    let vars = vec![
        ("PATH".to_string(), "/usr/bin".to_string()),
        ("SECRET".to_string(), "x".to_string()),
        ("HOME".to_string(), "/home/u".to_string()),
    ];
    let kept = filter_env_pairs(vars);
    assert_eq!(kept.len(), 2);
    assert_eq!(kept[0].0, "PATH");
    assert_eq!(kept[1].0, "HOME");
}

#[test]
fn enhanced_path_prepends_additions_before_inherited_path() {
    let nvm_bins = vec!["/home/u/.nvm/versions/node/v20.11.0/bin".to_string()];
    let exists = vec![
        true, false, false, false, false, false, false, false, false, false, false, false,
    ];
    let path = build_enhanced_path("/usr/bin:/bin", Some("/home/u"), &nvm_bins, &exists);
    assert_eq!(
        path,
        "/home/u/.nvm/versions/node/v20.11.0/bin:/opt/homebrew/bin:/usr/bin:/bin"
    );
}

#[test]
fn enhanced_path_skips_directories_already_present() {
    let exists = vec![
        true, false, false, false, false, false, false, false, false, false, false, false,
    ];
    let path = build_enhanced_path("/opt/homebrew/bin:/usr/bin", Some("/home/u"), &vec![], &exists);
    assert_eq!(path, "/opt/homebrew/bin:/usr/bin");
}

#[test]
fn enhanced_path_without_home_still_forces_homebrew() {
    let path = build_enhanced_path("/usr/bin", None, &vec![], &vec![]);
    assert_eq!(path, "/opt/homebrew/bin:/usr/bin");
    let unchanged = build_enhanced_path("/opt/homebrew/bin:/usr/bin", None, &vec![], &vec![]);
    assert_eq!(unchanged, "/opt/homebrew/bin:/usr/bin");
}

#[test]
fn nvm_program_forces_its_own_bin_directory() {
    let newp = nvm_bin_override(
        "/home/u/.nvm/versions/node/v20.11.0/bin/acli",
        "/usr/bin:/bin",
    );
    assert_eq!(
        newp.as_deref(),
        Some("/home/u/.nvm/versions/node/v20.11.0/bin:/usr/bin:/bin")
    );
    let covered = nvm_bin_override(
        "/home/u/.nvm/versions/node/v20.11.0/bin/acli",
        "/home/u/.nvm/versions/node/v20.11.0/bin:/usr/bin",
    );
    assert_eq!(covered, None);
    let not_nvm = nvm_bin_override("/usr/local/bin/acli", "/usr/bin");
    assert_eq!(not_nvm, None);
}

#[test]
fn parent_dir_is_text_before_last_slash() {
    assert_eq!(parent_dir("/a/b/c").as_deref(), Some("/a/b"));
    assert_eq!(parent_dir("noslash"), None);
}

#[test]
fn prepending_a_directory_uses_colon() {
    assert_eq!(prepend_dir_to_path("/d/bin", "/usr/bin"), "/d/bin:/usr/bin");
}

fn entry(path: &str, is_dir: bool, data: &[u8]) -> ArchiveEntry {
    ArchiveEntry { path: path.to_string(), is_dir, data: data.to_vec() }
}

#[test]
fn binary_entry_selection_takes_first_matching_file() {
    let entries = vec![
        entry("node-v20.11.0/", true, b""),
        entry("node-v20.11.0/bin/", true, b""),
        entry("node-v20.11.0/bin/npm", false, b"npm"),
        entry("node-v20.11.0/bin/node", false, b"first"),
        entry("other-v1/bin/node", false, b"second"),
    ];
    assert_eq!(find_binary_entry(&entries, "/bin/", "node"), Some(3));
    assert_eq!(find_binary_entry(&entries, "/", "node"), None);
    let dir_only = vec![entry("top/bin/node", true, b"")];
    assert_eq!(find_binary_entry(&dir_only, "/bin/", "node"), None);
    let no_top = vec![entry("node", false, b"bare")];
    assert_eq!(find_binary_entry(&no_top, "/", "node"), None);
}
