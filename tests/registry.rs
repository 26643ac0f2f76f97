use codex_monitor::registry::{
    child_needs_respawn, effective_setting, settings_change_needs_respawn, sort_workspaces, workspace_name_for_path, worktree_entry,
    WorkspaceEntry, WorkspaceInfo, WorkspaceKind, WorkspaceSettings, Workspaces,
};

fn main_entry(id: &str, path: &str) -> WorkspaceEntry {
    WorkspaceEntry::new_main(
        id.to_string(),
        workspace_name_for_path(path),
        path.to_string(),
        None,
    )
}

#[test]
fn new_workspace_is_named_after_its_folder() {
    assert_eq!(workspace_name_for_path("/tmp/proj"), "proj");
    assert_eq!(workspace_name_for_path("/tmp/proj/"), "proj");
    assert_eq!(workspace_name_for_path("proj"), "proj");
    assert_eq!(workspace_name_for_path("/"), "Workspace");
    assert_eq!(workspace_name_for_path("/tmp/.."), "Workspace");
}

#[test]
fn add_workspace_record() {
    let mut registry = Workspaces::new();
    let entry = main_entry("id-1", "/tmp/proj");
    assert_eq!(entry.name, "proj");
    assert!(registry.add(entry).is_ok());
    let stored = registry.get("id-1").unwrap();
    assert_eq!(stored.path, "/tmp/proj");
    assert_eq!(stored.kind, WorkspaceKind::Main);
}

#[test]
fn add_refuses_duplicate_paths_and_ids() {
    let mut registry = Workspaces::new();
    registry.add(main_entry("a", "/tmp/a")).unwrap();
    assert!(registry.add(main_entry("b", "/tmp/a")).is_err());
    assert!(registry.add(main_entry("a", "/tmp/other")).is_err());
    assert!(registry.add(main_entry("c", "")).is_err());
    assert_eq!(registry.entries.len(), 1);
}

#[test]
fn worktree_needs_a_main_parent() {
    let mut registry = Workspaces::new();
    registry.add(main_entry("P", "/repo")).unwrap();
    assert_eq!(
        registry.worktree_parent("missing").err(),
        Some("parent workspace not found".to_string())
    );
    let parent = registry.worktree_parent("P").unwrap();
    registry.add(worktree_entry(&parent, "W".to_string(), "b", "/wt/b".to_string())).unwrap();
    assert_eq!(
        registry.worktree_parent("W").err(),
        Some("Cannot create a worktree from another worktree.".to_string())
    );
    assert_eq!(
        registry.worktree_and_parent("P").err(),
        Some("Not a worktree workspace.".to_string())
    );
    assert_eq!(
        registry.worktree_and_parent("nope").err(),
        Some("workspace not found".to_string())
    );
}

#[test]
fn worktree_inherits_binary_and_setup_script() {
    let mut parent = WorkspaceEntry::new_main(
        "P".to_string(),
        "repo".to_string(),
        "/repo".to_string(),
        Some("/opt/agent".to_string()),
    );
    parent.settings.worktree_setup_script = Some("make setup".to_string());
    parent.settings.sort_order = Some(3);
    let child = worktree_entry(&parent, "W".to_string(), "feat", "/wt/feat".to_string());
    assert_eq!(child.name, "feat");
    assert_eq!(child.codex_bin.as_deref(), Some("/opt/agent"));
    assert_eq!(child.parent_id.as_deref(), Some("P"));
    assert_eq!(child.settings.worktree_setup_script.as_deref(), Some("make setup"));
    assert_eq!(child.settings.sort_order, None);
}

#[test]
fn removing_a_parent_with_worktrees_is_refused() {
    let mut registry = Workspaces::new();
    registry.add(main_entry("P", "/repo")).unwrap();
    let parent = registry.get("P").unwrap();
    registry.add(worktree_entry(&parent, "W".to_string(), "b", "/wt/b".to_string())).unwrap();
    assert!(registry.remove_entry("P").is_err());
    assert_eq!(registry.children_of("P").len(), 1);
    assert!(registry.remove_entry("W").is_ok());
    assert!(registry.remove_entry("P").is_ok());
    assert!(registry.entries.is_empty());
    assert!(registry.remove_entry("P").is_err());
}

#[test]
fn setup_script_change_reaches_the_worktrees() {
    let mut registry = Workspaces::new();
    registry.add(main_entry("P", "/repo")).unwrap();
    registry.add(main_entry("Q", "/other")).unwrap();
    let parent = registry.get("P").unwrap();
    registry.add(worktree_entry(&parent, "W".to_string(), "b", "/wt/b".to_string())).unwrap();
    let mut settings = WorkspaceSettings::empty();
    settings.worktree_setup_script = Some("pnpm i".to_string());
    let previous = registry.update_settings("P", settings).unwrap();
    assert_eq!(previous.settings.worktree_setup_script, None);
    assert_eq!(
        registry.get("W").unwrap().settings.worktree_setup_script.as_deref(),
        Some("pnpm i")
    );
    assert_eq!(registry.get("Q").unwrap().settings.worktree_setup_script, None);
    let mut blank = WorkspaceSettings::empty();
    blank.worktree_setup_script = Some("   ".to_string());
    registry.update_settings("P", blank).unwrap();
    assert_eq!(registry.get("P").unwrap().settings.worktree_setup_script, None);
    assert_eq!(registry.get("W").unwrap().settings.worktree_setup_script, None);
    assert!(registry.update_settings("nope", WorkspaceSettings::empty()).is_err());
}

#[test]
fn respawn_is_needed_only_when_agent_inputs_change() {
    let a = WorkspaceSettings::empty();
    let mut b = WorkspaceSettings::empty();
    b.sort_order = Some(1);
    b.worktree_setup_script = Some("x".to_string());
    assert!(!settings_change_needs_respawn(&a, &b));
    b.codex_args = Some("--flag".to_string());
    assert!(settings_change_needs_respawn(&a, &b));
    let mut c = WorkspaceSettings::empty();
    c.codex_home = Some("/h".to_string());
    assert!(settings_change_needs_respawn(&a, &c));
}

fn info(name: &str, order: Option<u32>) -> WorkspaceInfo {
    let mut entry = main_entry(name, &format!("/{name}"));
    entry.settings.sort_order = order;
    WorkspaceInfo { entry, connected: false }
}

#[test]
fn workspaces_sort_by_order_then_name() {
    let mut list = vec![
        info("zeta", None),
        info("beta", Some(2)),
        info("alpha", None),
        info("gamma", Some(1)),
        info("delta", Some(2)),
    ];
    sort_workspaces(&mut list);
    let names: Vec<String> = list.iter().map(|w| w.entry.name.clone()).collect();
    assert_eq!(names, vec!["gamma", "beta", "delta", "alpha", "zeta"]);
}

#[test]
fn agent_binary_of_a_workspace_can_change() {
    let mut registry = Workspaces::new();
    registry.add(main_entry("P", "/repo")).unwrap();
    let updated = registry.set_codex_bin("P", Some("/opt/agent".to_string())).unwrap();
    assert_eq!(updated.codex_bin.as_deref(), Some("/opt/agent"));
    assert_eq!(registry.get("P").unwrap().codex_bin.as_deref(), Some("/opt/agent"));
    assert_eq!(
        registry.set_codex_bin("nope", None).err(),
        Some("workspace not found".to_string())
    );
}

#[test]
fn worktrees_inherit_home_and_arguments() {
    let own = Some("/own".to_string());
    let parent = Some("/parent".to_string());
    assert_eq!(effective_setting(&own, &parent), own);
    assert_eq!(effective_setting(&None, &parent), parent);
    let child = WorkspaceSettings::empty();
    let before = WorkspaceSettings::empty();
    let mut after = WorkspaceSettings::empty();
    after.codex_home = Some("/h".to_string());
    assert!(child_needs_respawn(&child, &before, &after));
    let mut pinned = WorkspaceSettings::empty();
    pinned.codex_home = Some("/mine".to_string());
    assert!(!child_needs_respawn(&pinned, &before, &after));
}
