use pinax::editors::{common_editor_commands, detect_editors, editor_candidates, file_name, parse_desktop_file, terminal_candidates, EditorInfo};
use pinax::text::chars_of;

fn editor(name: &str, command: &str) -> EditorInfo {
    EditorInfo { name: name.to_string(), command: command.to_string(), icon: None }
}

#[test]
fn test_detect_editors() {
    let available: Vec<String> = Vec::new();
    let editors = detect_editors(&available, Vec::new());
    println!("Detected {} editors", editors.len());
}

#[test]
fn detected_editors_are_merged_and_sorted() {
    let available = vec!["vim".to_string(), "code".to_string()];
    let desktop = vec![
        editor("Code - OSS", "/usr/bin/code"),
        editor("Builder", "gnome-builder"),
        editor("Another Vim", "vim"),
        editor("Builder", "/opt/builder2"),
    ];
    let got = detect_editors(&available, desktop);
    let names: Vec<(&str, &str)> = got.iter().map(|e| (e.name.as_str(), e.command.as_str())).collect();
    assert_eq!(
        names,
        vec![
            ("Builder", "gnome-builder"),
            ("Builder", "/opt/builder2"),
            ("Vim", "vim"),
            ("Visual Studio Code", "code"),
        ]
    );
    assert_eq!(common_editor_commands().len(), 9);
}

#[test]
fn desktop_entries() {
    let text = "[Desktop Entry]\nName=Kate\nName=Other\nExec=kate -b %U\nIcon=kate\nCategories=Qt;KDE;TextEditor;\n";
    let e = parse_desktop_file(text).unwrap();
    assert_eq!(e.name, "Kate");
    assert_eq!(e.command, "kate");
    assert_eq!(e.icon, Some("kate".to_string()));
    assert!(parse_desktop_file("Name=Game\nExec=game\nCategories=Game;").is_none());
    assert!(parse_desktop_file("Name=Ed\nExec=   \nMimeType=text/plain;").is_none());
    let m = parse_desktop_file("MimeType=text/x-c;\nExec=ed\nName=Ed").unwrap();
    assert_eq!((m.name.as_str(), m.command.as_str(), m.icon), ("Ed", "ed", None));
}

#[test]
fn file_names_of_paths() {
    let f = |s: &str| file_name(&chars_of(s)).map(|v| v.into_iter().collect::<String>());
    assert_eq!(f("/usr/bin/code"), Some("code".to_string()));
    assert_eq!(f("foo.txt/.//"), Some("foo.txt".to_string()));
    assert_eq!(f("a/.."), None);
    assert_eq!(f("/"), None);
    assert_eq!(f("code"), Some("code".to_string()));
}

#[test]
fn launch_orders() {
    let t = terminal_candidates(&"/w".to_string());
    assert_eq!(t.len(), 7);
    assert_eq!(t[1].program, "konsole");
    assert_eq!(t[1].args, vec!["--workdir", "/w"]);
    assert!(t[6].args.is_empty());
    let e = editor_candidates(&"/w".to_string(), Some("vim".to_string()));
    assert_eq!(e[0].program, "sh");
    assert_eq!(e[0].args, vec!["-c", "vim \"/w\""]);
    assert_eq!(e[1].program, "vim");
    assert_eq!(e[2].program, "code");
    assert_eq!(e.len(), 11);
    assert_eq!(e[10].program, "xdg-open");
    assert!(!e[10].needs_success);
    let d = editor_candidates(&"/w".to_string(), Some("/opt/ed".to_string()));
    assert_eq!((d[0].program.as_str(), d[0].args.clone()), ("/opt/ed", vec!["/w".to_string()]));
    let a = editor_candidates(&"/w".to_string(), Some("auto".to_string()));
    assert_eq!(a[0].program, "code");
    assert_eq!(a.len(), 10);
}
