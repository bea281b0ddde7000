use std::cmp::Ordering;

use tool_locator::candidates::{source_preference, InstallationType, NodeRuntime, ToolInstallation};
use tool_locator::messages::{
    format_error_with_suggestion,
    get_chinese_error_message,
    get_success_message,
};
use tool_locator::ranking::{discover_tool_installations, select_best_installation};
use tool_locator::resolver::{
    find_bundled_node,
    find_system_node,
    get_node_download_info,
    make_downloaded_node_runtime,
    node_version_from_probe,
    requested_probe,
    resolver_start,
    resolver_step,
    Arch,
    NodeNvmEntry,
    NodeProbes,
    Platform,
    ResolverState,
    Tier,
    TierOutcome,
};
use tool_locator::resolve::{
    choose_tool_binary,
    find_global_tool_with_bundled_node,
    use_stored_hint,
};
use tool_locator::scanner::{
    discover_system_installations,
    extract_version_from_output,
    parse_which_output,
    standard_tool_paths,
    version_from_probe,
    RawCandidate,
};
use tool_locator::version::compare_versions;

fn cand(path: &str, version: Option<&str>, source: &str) -> ToolInstallation {
    ToolInstallation {
        path: path.to_string(),
        version: version.map(|v| v.to_string()),
        source: source.to_string(),
        installation_type: InstallationType::System,
    }
}

fn raw(path: &str, source: &str, version_stdout: Option<&str>) -> RawCandidate {
    RawCandidate {
        path: path.to_string(),
        source: source.to_string(),
        version_stdout: version_stdout.map(|v| v.to_string()),
    }
}

#[test]
fn compare_versions_equal_on_identical_strings() {
    assert_eq!(compare_versions("1.2.3", "1.2.3"), Ordering::Equal);
}

#[test]
fn compare_versions_orders_numerically_not_textually() {
    assert_eq!(compare_versions("1.10.0", "1.9.9"), Ordering::Greater);
    assert_eq!(compare_versions("1.9.9", "1.10.0"), Ordering::Less);
}

#[test]
fn compare_versions_ignores_prerelease_suffix() {
    assert_eq!(compare_versions("2.0.0-beta", "2.0.0"), Ordering::Equal);
}

#[test]
fn compare_versions_missing_fields_are_zero() {
    assert_eq!(compare_versions("1.2", "1.2.0"), Ordering::Equal);
    assert_eq!(compare_versions("1", "1.0.1"), Ordering::Less);
}

#[test]
fn select_best_is_stable_under_reordering() {
    let a = cand("/a/acli", Some("1.0.0"), "system");
    let b = cand("/b/acli", Some("2.0.0"), "bun");
    let r1 = select_best_installation(vec![a.clone(), b.clone()]).unwrap();
    let r2 = select_best_installation(vec![b, a]).unwrap();
    assert_eq!(r1.path, r2.path);
    assert_eq!(r1.path, "/b/acli");
}

#[test]
fn versioned_candidate_outranks_versionless() {
    let versioned = cand("/v/acli", Some("1.0.0"), "unknown-source");
    let versionless = cand("/u/acli", None, "which");
    let best = select_best_installation(vec![versionless, versioned]).unwrap();
    assert_eq!(best.path, "/v/acli");
}

#[test]
fn preferred_source_breaks_version_ties() {
    // spec order: equal versions fall through to the source-preference table
    let a = cand("/bun/acli", Some("1.0.0"), "bun");
    let b = cand("/which/acli", Some("1.0.0"), "which");
    let r1 = select_best_installation(vec![a.clone(), b.clone()]).unwrap();
    let r2 = select_best_installation(vec![b, a]).unwrap();
    assert_eq!(r1.source, "which");
    assert_eq!(r2.source, "which");
}

#[test]
fn preferred_source_breaks_versionless_ties() {
    // versionless candidates on resolved paths: the table alone decides
    let a = cand("/p1/acli", None, "which");
    let b = cand("/p2/acli", None, "PATH");
    let r1 = select_best_installation(vec![a.clone(), b.clone()]).unwrap();
    let r2 = select_best_installation(vec![b, a]).unwrap();
    assert_eq!(r1.source, "which");
    assert_eq!(r2.source, "which");
}

#[test]
fn full_ties_resolve_to_the_least_path_in_any_order() {
    let a = cand("/a/acli", Some("1.0.0"), "system");
    let b = cand("/b/acli", Some("1.0.0"), "system");
    let r1 = select_best_installation(vec![a.clone(), b.clone()]).unwrap();
    let r2 = select_best_installation(vec![b, a]).unwrap();
    assert_eq!(r1.path, "/a/acli");
    assert_eq!(r2.path, "/a/acli");
}

#[test]
fn resolved_path_outranks_bare_name() {
    let bare = cand("acli", None, "PATH");
    let resolved = cand("/usr/local/bin/acli", None, "system");
    let best = select_best_installation(vec![bare, resolved]).unwrap();
    assert_eq!(best.path, "/usr/local/bin/acli");
}

#[test]
fn select_best_of_empty_list_is_none() {
    assert!(select_best_installation(vec![]).is_none());
}

#[test]
fn duplicate_path_keeps_first_seen_source() {
    let found = discover_system_installations(vec![
        raw("/same/acli", "which", None),
        raw("/same/acli", "homebrew", None),
    ]);
    assert_eq!(found.len(), 1);
    assert_eq!(found[0].path, "/same/acli");
    assert_eq!(found[0].source, "which");
}

#[test]
fn discover_sorts_versions_descending_then_versionless() {
    let listing = discover_tool_installations(vec![
        raw("/bun/acli", "bun", Some("1.0.0")),
        raw("/which/acli", "which", Some("1.2.0")),
        raw("acli", "PATH", None),
    ]);
    assert_eq!(listing.len(), 3);
    assert_eq!(listing[0].version.as_deref(), Some("1.2.0"));
    assert_eq!(listing[0].source, "which");
    assert_eq!(listing[1].version.as_deref(), Some("1.0.0"));
    assert_eq!(listing[1].source, "bun");
    assert_eq!(listing[2].version, None);
    assert_eq!(listing[2].source, "PATH");
}

#[test]
fn extract_version_finds_first_semver() {
    assert_eq!(
        extract_version_from_output("acli 1.0.41 (stable)").as_deref(),
        Some("1.0.41")
    );
    assert_eq!(
        extract_version_from_output("version 2.3.4-beta.1+build7").as_deref(),
        Some("2.3.4-beta.1+build7")
    );
    assert_eq!(extract_version_from_output("no version here"), None);
}

#[test]
fn version_from_probe_requires_success() {
    assert_eq!(version_from_probe(false, "acli 1.0.41"), None);
    assert_eq!(version_from_probe(true, "acli 1.0.41").as_deref(), Some("1.0.41"));
}

#[test]
fn which_output_plain_path_is_trimmed() {
    assert_eq!(parse_which_output("/usr/local/bin/acli\n").as_deref(), Some("/usr/local/bin/acli"));
    assert_eq!(parse_which_output("   \n"), None);
}

#[test]
fn which_output_alias_report_yields_target() {
    assert_eq!(
        parse_which_output("acli: aliased to /home/u/.local/bin/acli\n").as_deref(),
        Some("/home/u/.local/bin/acli")
    );
}

#[test]
fn standard_paths_cover_system_and_home() {
    let none = standard_tool_paths(None);
    assert_eq!(none.len(), 4);
    assert_eq!(none[0].0, "/usr/local/bin/acli");
    assert_eq!(none[1].1, "homebrew");
    let with_home = standard_tool_paths(Some("/home/u"));
    assert_eq!(with_home.len(), 12);
    assert_eq!(with_home[5].0, "/home/u/.local/bin/acli");
    assert_eq!(with_home[5].1, "local-bin");
    assert_eq!(with_home[11].0, "/home/u/.config/yarn/global/node_modules/.bin/acli");
}

#[test]
fn tier_machine_starts_at_system() {
    let s = resolver_start();
    assert_eq!(requested_probe(&s), Some(Tier::System));
}

#[test]
fn system_success_skips_bundled_and_download() {
    let mut probes_run: Vec<Tier> = Vec::new();
    let mut state = resolver_start();
    loop {
        let tier = match requested_probe(&state) {
            Some(t) => t,
            None => break,
        };
        probes_run.push(tier);
        let outcome = match tier {
            Tier::System => TierOutcome::Success(NodeRuntime {
                path: "/usr/bin/node".to_string(),
                version: Some("20.11.0".to_string()),
                source: "system".to_string(),
                is_bundled: false,
            }),
            _ => panic!("tier probed after the system tier succeeded"),
        };
        state = resolver_step(state, outcome);
    }
    assert_eq!(probes_run, vec![Tier::System]);
    match state {
        ResolverState::Done(rt) => {
            assert!(!rt.is_bundled);
            assert_eq!(rt.path, "/usr/bin/node");
        }
        _ => panic!("resolution did not finish"),
    }
}

#[test]
fn all_tiers_failing_surfaces_download_message() {
    let mut state = resolver_start();
    let mut probes_run: Vec<Tier> = Vec::new();
    loop {
        let tier = match requested_probe(&state) {
            Some(t) => t,
            None => break,
        };
        probes_run.push(tier);
        let msg = match tier {
            Tier::System => "no system node",
            Tier::Bundled => "no bundled node",
            Tier::Download => "HTTP 503",
        };
        state = resolver_step(state, TierOutcome::Failure(msg.to_string()));
    }
    assert_eq!(probes_run, vec![Tier::System, Tier::Bundled, Tier::Download]);
    match state {
        ResolverState::Failed(m) => assert_eq!(m, "HTTP 503"),
        _ => panic!("resolution should have failed"),
    }
}

#[test]
fn downloaded_runtime_carries_its_label() {
    let rt = make_downloaded_node_runtime("/data/bundled_runtime/node".to_string(), true, "v20.11.0\n");
    assert_eq!(rt.source, "downloaded");
    assert!(rt.is_bundled);
    assert_eq!(rt.version.as_deref(), Some("20.11.0"));
    assert_eq!(rt.path, "/data/bundled_runtime/node");
}

#[test]
fn downloaded_runtime_is_marked_bundled() {
    let state = resolver_step(
        ResolverState::Probing(Tier::Download),
        TierOutcome::Success(NodeRuntime {
            path: "/data/bundled_runtime/node".to_string(),
            version: None,
            source: "downloaded".to_string(),
            is_bundled: false,
        }),
    );
    match state {
        ResolverState::Done(rt) => assert!(rt.is_bundled),
        _ => panic!("expected a secured runtime"),
    }
}

#[test]
fn find_system_node_prefers_which_result() {
    let probes = NodeProbes {
        which_stdout: Some("/opt/homebrew/bin/node\n".to_string()),
        which_exists: true,
        common_exists: vec![true, true, true, true],
        home: Some("/home/u".to_string()),
        nvm_entries: vec![],
    };
    let (path, source) = find_system_node(&probes).unwrap();
    assert_eq!(path, "/opt/homebrew/bin/node");
    assert_eq!(source, "system");
}

#[test]
fn find_system_node_falls_back_to_common_paths() {
    let probes = NodeProbes {
        which_stdout: None,
        which_exists: false,
        common_exists: vec![false, true, false, true],
        home: None,
        nvm_entries: vec![],
    };
    let (path, source) = find_system_node(&probes).unwrap();
    assert_eq!(path, "/usr/local/bin/node");
    assert_eq!(source, "system");
}

#[test]
fn find_system_node_picks_largest_nvm_version() {
    let probes = NodeProbes {
        which_stdout: None,
        which_exists: false,
        common_exists: vec![false, false, false, false],
        home: Some("/home/u".to_string()),
        nvm_entries: vec![
            NodeNvmEntry { name: "v18.19.0".to_string(), is_dir: true, has_node: true },
            NodeNvmEntry { name: "v20.11.0".to_string(), is_dir: true, has_node: true },
            NodeNvmEntry { name: "v21.0.0".to_string(), is_dir: true, has_node: false },
        ],
    };
    let (path, source) = find_system_node(&probes).unwrap();
    assert_eq!(path, "/home/u/.nvm/versions/node/v20.11.0/bin/node");
    assert_eq!(source, "nvm (v20.11.0)");
}

#[test]
fn find_system_node_reports_not_found_in_chinese() {
    let probes = NodeProbes {
        which_stdout: None,
        which_exists: false,
        common_exists: vec![false, false, false, false],
        home: None,
        nvm_entries: vec![],
    };
    let err = find_system_node(&probes).unwrap_err();
    assert_eq!(err, "未找到系统 Node.js 安装。系统将尝试下载内置版本。");
}

#[test]
fn node_version_probe_strips_v_prefix() {
    assert_eq!(node_version_from_probe(true, "v20.11.0\n").as_deref(), Some("20.11.0"));
    assert_eq!(node_version_from_probe(true, "20.11.0").as_deref(), Some("20.11.0"));
    assert_eq!(node_version_from_probe(false, "v20.11.0"), None);
}

#[test]
fn bundled_node_is_reported_under_app_data_dir() {
    let rt = find_bundled_node("/data", false, true, true, "v20.11.0\n").unwrap();
    assert_eq!(rt.path, "/data/bundled_runtime/node");
    assert_eq!(rt.source, "bundled");
    assert!(rt.is_bundled);
    assert_eq!(rt.version.as_deref(), Some("20.11.0"));
    let err = find_bundled_node("/data", false, false, false, "").unwrap_err();
    assert_eq!(err, "No bundled Node.js runtime found");
}

#[test]
fn download_info_matches_platform_and_arch() {
    let (url, name) = get_node_download_info(Platform::MacOs, Arch::Arm64).unwrap();
    assert_eq!(url, "https://nodejs.org/dist/v20.11.0/node-v20.11.0-darwin-arm64.tar.xz");
    assert_eq!(name, "node");
    let (url, name) = get_node_download_info(Platform::Linux, Arch::X64).unwrap();
    assert_eq!(url, "https://nodejs.org/dist/v20.11.0/node-v20.11.0-linux-x64.tar.xz");
    assert_eq!(name, "node");
    let (url, name) = get_node_download_info(Platform::Windows, Arch::X64).unwrap();
    assert_eq!(url, "https://nodejs.org/dist/v20.11.0/node-v20.11.0-win-x64.zip");
    assert_eq!(name, "node.exe");
    let err = get_node_download_info(Platform::Windows, Arch::Arm64).unwrap_err();
    assert_eq!(err, "Unsupported platform for Node.js download");
}

#[test]
fn stored_hint_short_circuits_only_when_file_exists() {
    assert_eq!(
        use_stored_hint(Some("/u/acli".to_string()), true).as_deref(),
        Some("/u/acli")
    );
    assert_eq!(use_stored_hint(Some("/u/acli".to_string()), false), None);
    assert_eq!(use_stored_hint(None, true), None);
}

#[test]
fn global_acli_search_takes_first_existing() {
    let flags = vec![false, true, false, false, true];
    let path = find_global_tool_with_bundled_node(Some("/home/u"), &flags).unwrap();
    assert_eq!(path, "/home/u/.yarn/bin/acli");
    let none = find_global_tool_with_bundled_node(Some("/home/u"), &vec![false; 5]);
    assert_eq!(
        none.unwrap_err(),
        "No global Agent CLI installation found to pair with bundled Node.js"
    );
    let nohome = find_global_tool_with_bundled_node(None, &vec![]);
    assert!(nohome.is_err());
}

#[test]
fn choose_tool_binary_prefers_discovered_installations() {
    let found = vec![
        cand("/old/acli", Some("1.0.0"), "system"),
        cand("/new/acli", Some("1.2.0"), "bun"),
    ];
    assert_eq!(choose_tool_binary(found, false, None).unwrap(), "/new/acli");
}

#[test]
fn choose_tool_binary_falls_back_to_global_with_runtime() {
    let r = choose_tool_binary(vec![], true, Some("/g/acli".to_string()));
    assert_eq!(r.unwrap(), "/g/acli");
    let err = choose_tool_binary(vec![], false, Some("/g/acli".to_string())).unwrap_err();
    assert!(err.starts_with("未找到 Agent CLI。"));
    assert!(err.contains("解决建议"));
}

#[test]
fn chinese_message_maps_known_identifiers() {
    assert_eq!(
        get_chinese_error_message("Agent CLI not found"),
        "未找到 Agent CLI。请确保已安装或允许自动下载 Node.js。"
    );
    assert_eq!(
        get_chinese_error_message("Failed to download Node.js"),
        "下载 Node.js 失败。请检查网络连接并重试。"
    );
}

#[test]
fn chinese_message_keeps_detail_suffix() {
    assert_eq!(
        get_chinese_error_message("Failed to download Node.js: connection reset"),
        "下载 Node.js 失败。请检查网络连接并重试。: connection reset"
    );
}

#[test]
fn chinese_message_rewrites_failed_to_prefix() {
    assert_eq!(get_chinese_error_message("Failed to reticulate"), "操作失败： reticulate");
}

#[test]
fn chinese_message_passes_unknown_text_through() {
    assert_eq!(get_chinese_error_message("mysterious"), "mysterious");
}

#[test]
fn error_formatting_appends_suggestion_by_kind() {
    let msg = format_error_with_suggestion("Agent CLI not found");
    assert!(msg.starts_with("未找到 Agent CLI。"));
    assert!(msg.contains("npm install -g acli"));
    let msg = format_error_with_suggestion("Failed to download Node.js");
    assert!(msg.contains("brew install node"));
    let msg = format_error_with_suggestion("mysterious");
    assert_eq!(msg, "mysterious");
}

#[test]
fn success_messages_cover_known_actions_and_default() {
    assert_eq!(get_success_message("install"), "安装成功");
    assert_eq!(get_success_message("export"), "导出成功");
    assert_eq!(get_success_message("frobnicate"), "frobnicate 成功");
}

#[test]
fn oversized_version_segment_reads_as_zero() {
    // a field too large for u32 contributes 0, as an unparsable field does
    assert_eq!(compare_versions("1.99999999999.0", "1.2.0"), Ordering::Less);
    assert_eq!(compare_versions("1.99999999999.0", "1.0.0"), Ordering::Equal);
}

#[test]
fn version_fields_stop_at_first_non_digit() {
    assert_eq!(compare_versions("1.2rc7.3", "1.2.3"), Ordering::Equal);
    assert_eq!(compare_versions("1.x.3", "1.0.3"), Ordering::Equal);
}

#[test]
fn listing_breaks_version_ties_by_source_preference() {
    let listing = discover_tool_installations(vec![
        raw("/bun/acli", "bun", Some("1.0.0")),
        raw("/which/acli", "which", Some("1.0.0")),
    ]);
    assert_eq!(listing[0].source, "which");
    assert_eq!(listing[1].source, "bun");
}

#[test]
fn source_preference_follows_the_fixed_table() {
    assert_eq!(source_preference(&cand("/x", None, "which")), 1);
    assert_eq!(source_preference(&cand("/x", None, "homebrew")), 2);
    assert_eq!(source_preference(&cand("/x", None, "nvm (v20.11.0)")), 4);
    assert_eq!(source_preference(&cand("/x", None, "PATH")), 12);
    assert_eq!(source_preference(&cand("/x", None, "somewhere-else")), 13);
}
