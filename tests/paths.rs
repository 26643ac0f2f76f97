use codex_monitor::paths::{normalize_root_path, resolve_workspace_for_cwd};

fn roots(items: &[(&str, &str)]) -> Vec<(String, String)> {
    items
        .iter()
        .map(|(id, root)| (id.to_string(), normalize_root_path(root)))
        .collect()
}

#[test]
fn resolve_workspace_for_cwd_normalizes_windows_paths() {
    let roots = roots(&[("ws-1", "C:\\Dev\\Codex")]);
    assert_eq!(
        resolve_workspace_for_cwd("c:/dev/codex", &roots),
        Some("ws-1".to_string())
    );
}

#[test]
fn resolve_workspace_for_cwd_normalizes_windows_namespace_paths() {
    let roots = roots(&[("ws-1", "C:\\Dev\\Codex")]);
    assert_eq!(
        resolve_workspace_for_cwd("\\\\?\\C:\\Dev\\Codex", &roots),
        Some("ws-1".to_string())
    );
}

#[test]
fn normalize_root_path_normalizes_windows_namespace_unc_paths() {
    assert_eq!(
        normalize_root_path("\\\\?\\UNC\\SERVER\\Share\\Repo\\"),
        "//server/share/repo"
    );
}

#[test]
fn resolve_workspace_for_cwd_matches_nested_paths() {
    let roots = roots(&[("ws-1", "/tmp/codex")]);
    assert_eq!(
        resolve_workspace_for_cwd("/tmp/codex/subdir/project", &roots),
        Some("ws-1".to_string())
    );
}

#[test]
fn resolve_workspace_for_cwd_prefers_longest_matching_root() {
    let roots = roots(&[("ws-parent", "/tmp/codex"), ("ws-child", "/tmp/codex/subdir")]);
    assert_eq!(
        resolve_workspace_for_cwd("/tmp/codex/subdir/project", &roots),
        Some("ws-child".to_string())
    );
}

#[test]
fn normalize_keeps_case_of_plain_paths() {
    assert_eq!(normalize_root_path("/Users/Me/Repo/"), "/Users/Me/Repo");
}

#[test]
fn normalize_empty_and_slash_only_paths_are_empty() {
    assert_eq!(normalize_root_path(""), "");
    assert_eq!(normalize_root_path("///"), "");
    assert_eq!(normalize_root_path("\\\\"), "");
}

#[test]
fn normalize_drops_device_namespace_prefix() {
    assert_eq!(normalize_root_path("\\\\.\\D:\\Work"), "d:/work");
}

#[test]
fn normalize_is_idempotent_on_common_paths() {
    for raw in [
        "/tmp/proj/",
        "C:\\Dev\\Codex",
        "\\\\?\\UNC\\SERVER\\Share\\Repo\\",
        "//Server/Share",
        "relative/Dir",
    ] {
        let once = normalize_root_path(raw);
        assert_eq!(normalize_root_path(&once), once);
    }
}

#[test]
fn resolve_rejects_sibling_with_common_prefix() {
    let roots = roots(&[("ws-1", "/tmp/codex")]);
    assert_eq!(resolve_workspace_for_cwd("/tmp/codex-other", &roots), None);
}

#[test]
fn resolve_returns_none_for_empty_cwd_or_no_roots() {
    let roots = roots(&[("ws-1", "/tmp/codex")]);
    assert_eq!(resolve_workspace_for_cwd("", &roots), None);
    assert_eq!(resolve_workspace_for_cwd("/tmp/codex", &Vec::new()), None);
}

#[test]
fn resolve_breaks_ties_by_least_workspace_id() {
    let roots = roots(&[("ws-b", "/tmp/codex"), ("ws-a", "/tmp/codex")]);
    assert_eq!(
        resolve_workspace_for_cwd("/tmp/codex/x", &roots),
        Some("ws-a".to_string())
    );
}

#[test]
fn resolve_ignores_empty_roots() {
    let all = vec![("ws-empty".to_string(), String::new())];
    assert_eq!(resolve_workspace_for_cwd("/tmp", &all), None);
}
