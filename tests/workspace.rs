use pinax::templates::{gitignore_text, license_text, license_text_now, readme_text, year_at};
use pinax::workspace::{add_repository, chrono_now, remove_workspace, timestamp_text, Workspace, WorkspaceConfig};

#[test]
fn new_workspace() {
    let w = Workspace::new("Work".to_string());
    assert_eq!(w.name, "Work");
    assert_eq!(w.id.len(), 36);
    assert!(w.repositories.is_empty());
    assert!(w.color.is_none());
    assert!(w.created_at.chars().all(|c| c.is_ascii_digit()));
    assert_ne!(Workspace::new("x".to_string()).id, w.id);
    assert_eq!(WorkspaceConfig::new(vec![w]).version, 1);
}

#[test]
fn timestamps() {
    assert_eq!(timestamp_text(Some(1700000000)), "1700000000");
    assert_eq!(timestamp_text(None), "0");
    assert!(chrono_now().parse::<u64>().unwrap() > 1_600_000_000);
}

#[test]
fn repositories_join_workspaces_once() {
    let mut ws = vec![Workspace::new("a".to_string()), Workspace::new("b".to_string())];
    let id = ws[1].id.clone();
    add_repository(&mut ws, &id, "/p").unwrap();
    add_repository(&mut ws, &id, "/p").unwrap();
    add_repository(&mut ws, &id, "/q").unwrap();
    assert_eq!(ws[1].repositories, vec!["/p".to_string(), "/q".to_string()]);
    assert!(ws[0].repositories.is_empty());
    assert_eq!(add_repository(&mut ws, "missing", "/p"), Err("Workspace not found".to_string()));
    assert_eq!(remove_workspace(&mut ws, "missing"), Err("Workspace not found".to_string()));
    remove_workspace(&mut ws, &id).unwrap();
    assert_eq!(ws.len(), 1);
    assert_eq!(ws[0].name, "a");
}

#[test]
fn starter_files() {
    assert_eq!(readme_text("demo"), "# demo\n\nInitial repository created with Pinax.");
    assert_eq!(gitignore_text("Rust"), Some("target/\nCargo.lock\n".to_string()));
    assert_eq!(gitignore_text("NODE"), Some("node_modules/\ndist/\n.env\n".to_string()));
    assert_eq!(gitignore_text("go"), Some("node_modules/\ntarget/\nbuild/\ndist/\n.env\n.DS_Store\n".to_string()));
    assert_eq!(gitignore_text(""), None);
    let l = license_text(2025);
    assert!(l.starts_with("MIT License\n\nCopyright (c) 2025 Pinax User\n"));
    assert!(l.ends_with("SOFTWARE."));
    assert_eq!(year_at(None), Some(1970));
    assert_eq!(year_at(Some(1431648000)), Some(2015));
    assert!(license_text_now().unwrap().starts_with("MIT License\n\nCopyright (c) 20"));
}
