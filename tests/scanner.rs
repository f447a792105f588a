use pinax::scanner::{should_descend, sort_repositories, Repository, Scan, MAX_SCAN_DEPTH};

fn repo(name: &str) -> Repository {
    Repository { path: format!("/r/{}", name), name: name.to_string(), remote_url: None, last_commit: None }
}

#[test]
fn skipped_directories() {
    for n in ["node_modules", ".git", "target", "build", "dist", ".cache", "vendor", "__pycache__", ".hidden"] {
        assert!(!should_descend(n), "{}", n);
    }
    assert!(should_descend("src"));
    assert!(should_descend("projects"));
}

/// A walk over a small tree: `root/node_modules/dep` and `root/a/b/c/app` hold
/// repositories.
#[test]
fn discovery_prunes_and_reaches_depth_four() {
    let mut scan = Scan::new("root".to_string());
    let mut visited = Vec::new();
    while let Some((path, depth)) = scan.next_dir() {
        visited.push((path.clone(), depth));
        let children: Vec<(String, String)> = match path.as_str() {
            "root" => vec![
                ("root/node_modules".to_string(), "node_modules".to_string()),
                ("root/a".to_string(), "a".to_string()),
            ],
            "root/node_modules" => vec![("root/node_modules/dep".to_string(), "dep".to_string())],
            "root/a" => vec![("root/a/b".to_string(), "b".to_string())],
            "root/a/b" => vec![("root/a/b/c".to_string(), "c".to_string())],
            "root/a/b/c" => vec![("root/a/b/c/app".to_string(), "app".to_string())],
            "root/a/b/c/app" => vec![("root/a/b/c/app/deep".to_string(), "deep".to_string())],
            _ => vec![],
        };
        if path == "root/node_modules/dep" || path == "root/a/b/c/app" {
            let name = path.rsplit('/').next().map(|s| s.to_string());
            scan.add_repository(path.clone(), name, None);
        }
        scan.add_children(depth, children);
    }
    let found = scan.finish();
    assert_eq!(found.len(), 1);
    assert_eq!(found[0].path, "root/a/b/c/app");
    assert_eq!(found[0].name, "app");
    assert!(visited.iter().all(|(p, d)| !p.contains("node_modules") && *d <= MAX_SCAN_DEPTH));
    assert!(visited.contains(&("root/a/b/c/app".to_string(), 4)));
}

#[test]
fn too_deep_directories_end_the_walk() {
    let mut scan = Scan::new("root".to_string());
    let _ = scan.next_dir();
    scan.add_children(3, vec![("root/x".to_string(), "x".to_string())]);
    assert_eq!(scan.next_dir(), Some(("root/x".to_string(), 4)));
    scan.add_children(4, vec![("root/x/y".to_string(), "y".to_string())]);
    assert_eq!(scan.next_dir(), None);
    assert_eq!(Repository::new("/a/b".to_string(), None, None).name, "unknown");
}

#[test]
fn unnamed_repository_is_unknown() {
    let mut scan = Scan::new("/".to_string());
    let _ = scan.next_dir();
    scan.add_repository("/".to_string(), None, Some("git@x:y/z".to_string()));
    let found = scan.finish();
    assert_eq!(found[0].name, "unknown");
    assert_eq!(found[0].remote_url, Some("git@x:y/z".to_string()));
}

#[test]
fn repositories_sort_case_insensitively_and_stably() {
    let mut second = repo("beta");
    second.path = "/other/beta".to_string();
    let sorted = sort_repositories(vec![repo("Gamma"), repo("beta"), repo("Alpha"), second]);
    let got: Vec<(&str, &str)> = sorted.iter().map(|r| (r.name.as_str(), r.path.as_str())).collect();
    assert_eq!(got, vec![("Alpha", "/r/Alpha"), ("beta", "/r/beta"), ("beta", "/other/beta"), ("Gamma", "/r/Gamma")]);
}
