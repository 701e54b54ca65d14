use tcui::artifacts::{ArtifactEntry, ArtifactHandle, ArtifactKind, ArtifactOrigin, VaultNode, VaultNodeKind};
use tcui::vault_tree::{build_vault_nodes, components_of, vault_tree_for};

fn entry(path: &str, origin: ArtifactOrigin) -> ArtifactEntry {
    let handle = match origin {
        ArtifactOrigin::Vault => ArtifactHandle::Vault(path.to_string()),
        ArtifactOrigin::Saved => ArtifactHandle::Saved(path.to_string()),
        ArtifactOrigin::Memory => ArtifactHandle::Memory(path.to_string()),
        ArtifactOrigin::Temporary => ArtifactHandle::Temporary(1),
    };
    ArtifactEntry {
        handle,
        name: path.to_string(),
        kind: ArtifactKind::Markdown,
        origin,
        content: None,
        path: Some(path.to_string()),
    }
}

fn has(nodes: &[VaultNode], path: &str) -> bool {
    nodes.iter().any(|node| node.path == path)
}

#[test]
fn vault_nodes_build_nested_tree_and_respect_collapsed_dirs() {
    let entries = vec![entry("notes/a.md", ArtifactOrigin::Vault), entry("notes/projects/b.md", ArtifactOrigin::Vault)];

    let expanded = build_vault_nodes(&entries, &vec![]);
    assert!(has(&expanded, "notes"));
    assert!(has(&expanded, "notes/projects"));
    assert!(has(&expanded, "notes/projects/b.md"));

    let collapsed = build_vault_nodes(&entries, &vec!["notes".to_string()]);
    assert!(has(&collapsed, "notes"));
    assert!(!has(&collapsed, "notes/projects"));
    assert!(!has(&collapsed, "notes/a.md"));
}

#[test]
fn tree_rows_are_sorted_indented_and_list_each_directory_once() {
    let paths = vec!["notes/b.md".to_string(), "notes-old/x.md".to_string(), "notes/a.md".to_string(), "top.md".to_string()];
    let rows = vault_tree_for(&paths, &vec![]);
    let summary: Vec<(String, usize, VaultNodeKind, bool)> =
        rows.iter().map(|n| (n.path.clone(), n.depth, n.kind, n.expanded)).collect();

    assert_eq!(
        summary,
        vec![
            ("notes".to_string(), 0, VaultNodeKind::Directory, true),
            ("notes/a.md".to_string(), 1, VaultNodeKind::File, false),
            ("notes/b.md".to_string(), 1, VaultNodeKind::File, false),
            ("notes-old".to_string(), 0, VaultNodeKind::Directory, true),
            ("notes-old/x.md".to_string(), 1, VaultNodeKind::File, false),
            ("top.md".to_string(), 0, VaultNodeKind::File, false),
        ]
    );
    assert_eq!(rows[1].label, "a.md");
}

#[test]
fn hidden_entries_and_other_artifacts_are_left_out() {
    let entries = vec![
        entry(".obsidian/config", ArtifactOrigin::Vault),
        entry("notes/.draft.md", ArtifactOrigin::Vault),
        entry("saved.md", ArtifactOrigin::Saved),
    ];
    let rows = build_vault_nodes(&entries, &vec![]);
    let paths: Vec<&str> = rows.iter().map(|n| n.path.as_str()).collect();

    assert_eq!(paths, vec!["notes"]);
}

#[test]
fn folded_directory_row_is_marked_collapsed() {
    let rows = vault_tree_for(&vec!["a/b/c.md".to_string()], &vec!["a/b".to_string()]);
    let summary: Vec<(String, bool)> = rows.iter().map(|n| (n.path.clone(), n.expanded)).collect();

    assert_eq!(summary, vec![("a".to_string(), true), ("a/b".to_string(), false)]);
}

#[test]
fn path_components_normalize_slashes_and_dots() {
    assert_eq!(components_of("a//b/./c/"), vec!["a", "b", "c"]);
    assert_eq!(components_of("./a"), vec![".", "a"]);
    assert_eq!(components_of("/etc/x"), vec!["/", "etc", "x"]);
    assert!(components_of("").is_empty());
}

#[test]
fn absolute_paths_keep_their_root() {
    let rows = vault_tree_for(&vec!["/vault/n.md".to_string()], &vec![]);
    let paths: Vec<&str> = rows.iter().map(|n| n.path.as_str()).collect();

    assert_eq!(paths, vec!["/", "/vault", "/vault/n.md"]);
}

#[test]
fn a_folded_directory_named_with_a_trailing_slash_is_folded() {
    let rows = vault_tree_for(&vec!["a/b/c.md".to_string()], &vec!["a/b/".to_string()]);
    assert_eq!(rows.len(), 2);
    assert!(!rows[1].expanded);
}
