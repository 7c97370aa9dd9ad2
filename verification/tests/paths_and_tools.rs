use safai::detect::{
    default_roots, detect_tools, display_path, expand_str, join_rest, project_root_candidates,
    project_scan_roots, resolve_drive_path, EnvPaths,
};

fn env(profile: Option<&str>) -> EnvPaths {
    EnvPaths {
        local_app_data: Some("C:\\Users\\tester\\AppData\\Local".to_string()),
        app_data: None,
        user_profile: profile.map(|p| p.to_string()),
    }
}

#[test]
fn expand_resolves_set_var() {
    let out = expand_str("%USERPROFILE%/.gradle/caches", &env(Some("C:\\Users\\tester"))).expect("expands");
    let normalized = out.replace('\\', "/");
    assert!(normalized.ends_with("tester/.gradle/caches"), "unexpected expansion: {normalized}");
}

#[test]
fn expand_tilde_uses_userprofile() {
    let out = expand_str("~/.bun/install/cache", &env(Some("C:\\Users\\tilde"))).expect("expands");
    let normalized = out.replace('\\', "/");
    assert!(normalized.ends_with("tilde/.bun/install/cache"), "unexpected expansion: {normalized}");
}

#[test]
fn expand_missing_var_returns_none() {
    assert!(expand_str("%SAFAI_NOPE%/x", &env(Some("C:\\Users\\x"))).is_none());
}

#[test]
fn expansion_edge_cases() {
    assert!(expand_str("%APPDATA%/npm", &env(None)).is_none(), "unset variable");
    assert!(expand_str("~/x", &env(Some(""))).is_none(), "empty variable");
    assert!(expand_str("%USERPROFILE", &env(Some("C:/u"))).is_none(), "unterminated token");
    assert_eq!(expand_str("D:/plain", &env(None)).as_deref(), Some("D:/plain"));
    let lower = expand_str("%localappdata%/uv/cache", &env(None)).expect("token names ignore case");
    assert!(lower.replace('\\', "/").ends_with("Local/uv/cache"));
    assert_eq!(expand_str("%LOCALAPPDATA%", &env(None)).as_deref(), Some("C:\\Users\\tester\\AppData\\Local"));
}

#[test]
fn join_rest_splits_on_both_separators() {
    let joined = join_rest("base", "\\a/b\\\\c/");
    let expected: std::path::PathBuf = ["base", "a", "b", "c"].iter().collect();
    assert_eq!(joined, expected.to_string_lossy());
    assert_eq!(join_rest("base", "//"), "base");
}

#[test]
fn display_paths_use_forward_slashes() {
    assert_eq!(display_path("C:\\Users\\x\\node_modules"), "C:/Users/x/node_modules");
    assert_eq!(display_path("already/fine"), "already/fine");
}

#[test]
fn tools_are_detected_from_the_executables_present() {
    let tools = detect_tools(&vec!["python3".to_string(), "cargo".to_string()]);
    let detected: Vec<&str> = tools.iter().filter(|t| t.2).map(|t| t.0.as_str()).collect();
    assert!(detected.contains(&"python"));
    assert!(detected.contains(&"cargo"));
    assert!(!detected.contains(&"npm"));
    assert!(tools.iter().any(|t| t.0 == "git" && t.1 == "Git"));
    let ids: Vec<&str> = tools.iter().map(|t| t.0.as_str()).collect();
    assert_eq!(ids, vec!["uv", "npm", "pnpm", "yarn", "node", "bun", "gradle", "cargo", "go", "python", "pip", "dart", "git"]);
}

#[test]
fn roots_keep_the_first_of_each_path() {
    let roots = default_roots(&vec!["C:/Users/x".to_string(), "C:/Users/x/AppData/Local".to_string(), "C:/Users/x".to_string()]);
    assert_eq!(roots, vec!["C:/Users/x".to_string(), "C:/Users/x/AppData/Local".to_string()]);
    let scan = project_scan_roots(&vec!["a".to_string(), "a".to_string()]);
    assert_eq!(scan, vec!["a".to_string()]);
}

#[test]
fn project_roots_are_the_usual_dev_folders() {
    let c = project_root_candidates("C:\\Users\\x");
    assert!(c.iter().any(|p| p.replace('\\', "/").ends_with("x/source")));
    assert!(c.iter().any(|p| p.replace('\\', "/").ends_with("Documents/GitHub")));
}

#[test]
fn the_drive_path_defaults_to_the_first_root() {
    assert_eq!(resolve_drive_path(Some("E:\\".to_string()), &vec!["C:/Users/x".to_string()]), "E:\\");
    assert_eq!(resolve_drive_path(None, &vec!["C:/Users/x".to_string()]), "C:/Users/x");
    assert_eq!(resolve_drive_path(None, &Vec::new()), "C:\\");
}
