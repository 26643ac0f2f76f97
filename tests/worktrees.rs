use codex_monitor::registry::{
    rename_target, worktree_setup_status, worktree_entry, WorkspaceEntry, WorkspaceKind, Workspaces,
};
use codex_monitor::worktree::{
    remote_search_order, upstream_rename_commands, upstream_rename_names,
    branch_rename_args, is_missing_worktree_error, join_path, normalize_git_path,
    normalize_setup_script, sanitize_worktree_name, should_skip_dir, unique_branch_name,
    unique_worktree_path, unique_worktree_path_for_rename, worktree_add_args, worktree_move_args,
    worktree_remove_args, worktree_setup_marker_path, BranchSource,
};

fn strings(items: &[&str]) -> Vec<String> {
    items.iter().map(|s| s.to_string()).collect()
}

#[test]
fn sanitize_replaces_unsafe_characters_and_trims_dashes() {
    assert_eq!(sanitize_worktree_name("feature/new thing"), "feature-new-thing");
    assert_eq!(sanitize_worktree_name("--fix_1.2--"), "fix_1.2");
    assert_eq!(sanitize_worktree_name("///"), "worktree");
    assert_eq!(sanitize_worktree_name(""), "worktree");
    assert_eq!(sanitize_worktree_name("héllo"), "h-llo");
}

#[test]
fn join_path_adds_one_separator() {
    assert_eq!(join_path("/data/worktrees", "x"), "/data/worktrees/x");
    assert_eq!(join_path("/data/worktrees/", "x"), "/data/worktrees/x");
    assert_eq!(join_path("", "x"), "x");
}

#[test]
fn unique_worktree_path_takes_the_first_free_suffix() {
    let base = "/data/worktrees/P";
    assert_eq!(
        unique_worktree_path(base, "feat", &Vec::new()),
        Ok("/data/worktrees/P/feat".to_string())
    );
    let taken = strings(&["/data/worktrees/P/feat", "/data/worktrees/P/feat-2"]);
    assert_eq!(
        unique_worktree_path(base, "feat", &taken),
        Ok("/data/worktrees/P/feat-3".to_string())
    );
}

#[test]
fn unique_worktree_path_fails_after_the_last_suffix() {
    let base = "/w";
    let mut taken = vec!["/w/x".to_string()];
    for k in 2..1000 {
        taken.push(format!("/w/x-{k}"));
    }
    assert_eq!(
        unique_worktree_path(base, "x", &taken),
        Err("Failed to find an available worktree path under /w.".to_string())
    );
}

#[test]
fn unique_worktree_path_for_rename_accepts_the_current_path() {
    let taken = strings(&["/w/new", "/w/new-2"]);
    assert_eq!(
        unique_worktree_path_for_rename("/w", "new", "/w/new-2", &taken),
        Ok("/w/new-2".to_string())
    );
    assert_eq!(
        unique_worktree_path_for_rename("/w", "new", "/w/old", &taken),
        Ok("/w/new-3".to_string())
    );
}

#[test]
fn unique_branch_name_suffixes_taken_names() {
    assert_eq!(
        unique_branch_name("topic", &strings(&["main"])),
        Ok(("topic".to_string(), false))
    );
    assert_eq!(
        unique_branch_name("topic", &strings(&["topic", "topic-2"])),
        Ok(("topic-3".to_string(), true))
    );
    assert_eq!(unique_branch_name("", &strings(&[""])), Ok((String::new(), false)));
}

#[test]
fn setup_marker_lives_under_the_data_dir() {
    assert_eq!(
        worktree_setup_marker_path("/data", "ws-1"),
        "/data/worktree-setup/ws-1.ran"
    );
}

#[test]
fn blank_setup_script_counts_as_none() {
    assert_eq!(normalize_setup_script(Some("  \n".to_string())), None);
    assert_eq!(
        normalize_setup_script(Some("npm i".to_string())),
        Some("npm i".to_string())
    );
    assert_eq!(normalize_setup_script(None), None);
}

#[test]
fn git_helpers() {
    assert!(is_missing_worktree_error("fatal: '/x' is not a working tree"));
    assert!(!is_missing_worktree_error("fatal: something else"));
    assert_eq!(normalize_git_path("C:\\a\\b"), "C:/a/b");
    assert!(should_skip_dir("node_modules"));
    assert!(should_skip_dir(".git"));
    assert!(!should_skip_dir("src"));
    assert_eq!(worktree_remove_args("/w/x"), strings(&["worktree", "remove", "--force", "/w/x"]));
}

#[test]
fn worktree_add_arguments_follow_the_branch_source() {
    assert_eq!(
        worktree_add_args("/w/b", "b", &BranchSource::Local),
        strings(&["worktree", "add", "/w/b", "b"])
    );
    assert_eq!(
        worktree_add_args("/w/b", "b", &BranchSource::Remote("origin/b".to_string())),
        strings(&["worktree", "add", "-b", "b", "/w/b", "origin/b"])
    );
    assert_eq!(
        worktree_add_args("/w/b", "b", &BranchSource::Fresh),
        strings(&["worktree", "add", "-b", "b", "/w/b"])
    );
}

fn parent_and_worktree() -> Workspaces {
    let mut registry = Workspaces::new();
    let parent = WorkspaceEntry::new_main(
        "P".to_string(),
        "repo".to_string(),
        "/repo".to_string(),
        Some("/bin/agent".to_string()),
    );
    registry.add(parent).unwrap();
    let parent = registry.get("P").unwrap();
    let child = worktree_entry(&parent, "wt".to_string(), "old", "P/worktrees/P/old-2".to_string());
    registry.add(child).unwrap();
    registry
}

#[test]
fn worktree_rename_moves_branch_and_path() {
    let mut registry = parent_and_worktree();
    let (entry, parent) = registry.worktree_and_parent("wt").unwrap();
    assert_eq!(parent.id, "P");
    let current = entry.worktree.as_ref().map(|w| &w.branch);
    let target = rename_target(current, " new ").unwrap();
    assert_eq!(target, "new");
    let (branch, suffixed) = unique_branch_name(&target, &strings(&["old"])).unwrap();
    assert_eq!(branch, "new");
    assert!(!suffixed);
    assert_eq!(branch_rename_args("old", &branch), strings(&["branch", "-m", "old", "new"]));
    let name = sanitize_worktree_name(&branch);
    let next = unique_worktree_path_for_rename(
        "P/worktrees/P",
        &name,
        &entry.path,
        &strings(&["P/worktrees/P/old-2"]),
    )
    .unwrap();
    assert_eq!(next, "P/worktrees/P/new");
    assert_eq!(
        worktree_move_args(&entry.path, &next),
        strings(&["worktree", "move", "P/worktrees/P/old-2", "P/worktrees/P/new"])
    );
    let renamed = registry.rename_worktree_entry("wt", &branch, next).unwrap();
    assert_eq!(renamed.name, "new");
    assert_eq!(renamed.worktree.as_ref().unwrap().branch, "new");
    assert_eq!(renamed.path, "P/worktrees/P/new");
    let stored = registry.get("wt").unwrap();
    assert_eq!(stored.path, "P/worktrees/P/new");
    assert_eq!(stored.kind, WorkspaceKind::Worktree);
}

#[test]
fn rename_target_refusals() {
    let old = "old".to_string();
    assert_eq!(rename_target(Some(&old), "   "), Err("Branch name is required.".to_string()));
    assert_eq!(rename_target(Some(&old), "old "), Err("Branch name is unchanged.".to_string()));
    assert_eq!(rename_target(None, "new"), Err("worktree metadata missing".to_string()));
}

#[test]
fn setup_marker_contents_records_the_time() {
    assert_eq!(codex_monitor::worktree::setup_marker_contents(1700000000), "ran_at=1700000000\n");
    assert_eq!(codex_monitor::worktree::setup_marker_contents(0), "ran_at=0\n");
}

#[test]
fn remotes_are_searched_origin_first() {
    assert_eq!(
        remote_search_order(&strings(&["upstream", "origin", "fork"])),
        strings(&["origin", "upstream", "fork"])
    );
    assert_eq!(remote_search_order(&strings(&["fork"])), strings(&["fork"]));
    assert!(remote_search_order(&Vec::new()).is_empty());
}

#[test]
fn upstream_rename_plans() {
    assert_eq!(
        upstream_rename_commands("origin", "old", "new", true),
        vec![
            strings(&["push", "origin", "new:new"]),
            strings(&["push", "origin", ":old"]),
            strings(&["branch", "--set-upstream-to", "origin/new", "new"]),
        ]
    );
    assert_eq!(
        upstream_rename_commands("origin", "old", "new", false),
        vec![
            strings(&["push", "origin", "new"]),
            strings(&["branch", "--set-upstream-to", "origin/new", "new"]),
        ]
    );
    assert_eq!(
        upstream_rename_names(" old ", "new"),
        Ok(("old".to_string(), "new".to_string()))
    );
    assert_eq!(upstream_rename_names("", "new"), Err("Branch name is required.".to_string()));
    assert_eq!(upstream_rename_names("a", " a "), Err("Branch name is unchanged.".to_string()));
}

#[test]
fn setup_script_runs_once_per_worktree() {
    let mut parent = WorkspaceEntry::new_main("P".to_string(), "p".to_string(), "/p".to_string(), None);
    parent.settings.worktree_setup_script = Some("make".to_string());
    let child = worktree_entry(&parent, "W".to_string(), "b", "/w/b".to_string());
    assert_eq!(worktree_setup_status(&child, false), (true, Some("make".to_string())));
    assert_eq!(worktree_setup_status(&child, true), (false, Some("make".to_string())));
    assert_eq!(worktree_setup_status(&parent, false), (false, Some("make".to_string())));
}

#[test]
fn file_contents_are_clipped_at_the_limit() {
    let (bytes, cut) = codex_monitor::worktree::clip_bytes(vec![1, 2, 3, 4], 3);
    assert_eq!(bytes, vec![1, 2, 3]);
    assert!(cut);
    let (bytes, cut) = codex_monitor::worktree::clip_bytes(vec![1, 2, 3], 3);
    assert_eq!(bytes, vec![1, 2, 3]);
    assert!(!cut);
    assert_eq!(codex_monitor::worktree::MAX_WORKSPACE_FILE_BYTES, 400000);
}

#[test]
fn paths_sort_lexicographically() {
    let mut paths = strings(&["src/b.rs", "README.md", "src/a.rs", "Cargo.toml", "src/a.rs"]);
    codex_monitor::worktree::sort_paths(&mut paths);
    assert_eq!(paths, strings(&["Cargo.toml", "README.md", "src/a.rs", "src/a.rs", "src/b.rs"]));
}

#[test]
fn command_output_lines() {
    assert_eq!(
        codex_monitor::worktree::output_lines("origin\r\n\n  fork \nupstream"),
        strings(&["origin", "fork", "upstream"])
    );
    assert!(codex_monitor::worktree::output_lines("").is_empty());
    assert!(codex_monitor::worktree::output_lines("\n \n").is_empty());
}
