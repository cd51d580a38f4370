use timeforged::path::{
    path_components, path_extension, path_file_name, path_first_below, path_join,
};
use timeforged::text::{is_whitespace, same_text, to_chars, trimmed};
use timeforged::util::{infer_language_from_path, is_ignored_path, is_ignored_with};

#[test]
fn filter_rejects_vcs_dependency_and_lock_paths() {
    assert!(is_ignored_path(".git/index"));
    assert!(is_ignored_path("node_modules/x.js"));
    assert!(is_ignored_path("a.lock"));
}

#[test]
fn filter_accepts_sources_and_documents() {
    assert!(!is_ignored_path("src/main.rs"));
    assert!(!is_ignored_path("README.md"));
}

#[test]
fn filter_looks_at_whole_components_and_the_last_extension() {
    assert!(is_ignored_path("/proj/app/target/debug/x"));
    assert!(is_ignored_path("/proj/.venv/lib/a.py"));
    assert!(is_ignored_path("/proj/build"));
    assert!(is_ignored_path("/proj/app/libfoo.so"));
    assert!(is_ignored_path("/proj/app/a.tar.pyc"));
    assert!(!is_ignored_path("/proj/targets/a.rs"));
    assert!(!is_ignored_path("/proj/my.git/a.rs"));
    assert!(!is_ignored_path("/proj/app/a.lock.rs"));
    assert!(!is_ignored_path("/proj/app/.lock"));
    assert!(!is_ignored_path("/proj/app/lock"));
    assert!(!is_ignored_path(""));
    assert!(!is_ignored_path("/"));
}

#[test]
fn configured_entries_extend_the_deny_list() {
    let extra = vec![String::from("vendor"), String::from("tmp")];
    assert!(is_ignored_with("/proj/vendor/a.rs", &extra));
    assert!(is_ignored_with("/proj/app/tmp", &extra));
    assert!(is_ignored_with("/proj/.git/a", &extra));
    assert!(!is_ignored_with("/proj/vendors/a.rs", &extra));
    assert!(!is_ignored_with("/proj/vendor/a.rs", &Vec::new()));
}

#[test]
fn language_by_name_and_by_extension() {
    assert_eq!(infer_language_from_path("/proj/app/a.py"), Some(String::from("Python")));
    assert_eq!(infer_language_from_path("Cargo.lock"), Some(String::from("TOML")));
    assert_eq!(infer_language_from_path("/x/Makefile"), Some(String::from("Makefile")));
    assert_eq!(infer_language_from_path("/x/.gitignore"), Some(String::from("Git Config")));
    assert_eq!(infer_language_from_path("/x/.env.local"), Some(String::from("Env")));
    assert_eq!(infer_language_from_path("/x/tsconfig.json"), Some(String::from("JSON")));
    assert_eq!(infer_language_from_path("/x/a.tsx"), Some(String::from("TypeScript")));
    assert_eq!(infer_language_from_path("/x/a.hpp"), Some(String::from("C++")));
    assert_eq!(infer_language_from_path("/x/a.el"), Some(String::from("Emacs Lisp")));
    assert_eq!(infer_language_from_path("/x/a.tar.rs"), Some(String::from("Rust")));
    assert_eq!(infer_language_from_path("/x/a.rs/"), Some(String::from("Rust")));
    assert_eq!(infer_language_from_path("/x/notes"), None);
    assert_eq!(infer_language_from_path("/x/.hidden"), None);
    assert_eq!(infer_language_from_path("/x/a.unknown"), None);
    assert_eq!(infer_language_from_path("/x/a.RS"), None);
    assert_eq!(infer_language_from_path("/x/a.rs/.."), None);
    assert_eq!(infer_language_from_path(""), None);
}

#[test]
fn paths_are_read_as_a_unix_file_system_reads_them() {
    let parts = |p: &str| path_components(p);
    assert_eq!(parts("/a/b"), vec!["/", "a", "b"]);
    assert_eq!(parts("a//b/"), vec!["a", "b"]);
    assert_eq!(parts("a/./b/."), vec!["a", "b"]);
    assert_eq!(parts("./a"), vec![".", "a"]);
    assert_eq!(parts("/./a"), vec!["/", "a"]);
    assert_eq!(parts("a/../b"), vec!["a", "..", "b"]);
    assert_eq!(parts("."), vec!["."]);
    assert_eq!(parts("/"), vec!["/"]);
    assert_eq!(parts("").len(), 0);
    for p in ["/a/b", "a//b/", "a/./b/.", "./a", "/./a", "a/../b", ".", "/", "", "..", "a/..", "x.tar.gz", ".x", "a.", "/a/.b.c"] {
        let std_parts: Vec<String> = std::path::Path::new(p)
            .components()
            .map(|c| c.as_os_str().to_str().unwrap().to_string())
            .collect();
        assert_eq!(path_components(p), std_parts);
        let std_name = std::path::Path::new(p).file_name().map(|n| n.to_str().unwrap().to_string());
        assert_eq!(path_file_name(p), std_name);
        let std_ext = std::path::Path::new(p).extension().map(|n| n.to_str().unwrap().to_string());
        assert_eq!(path_extension(p), std_ext);
    }
}

#[test]
fn the_first_component_below_a_root() {
    assert_eq!(path_first_below("/proj", "/proj/app/a.py"), Some(String::from("app")));
    assert_eq!(path_first_below("/proj/", "/proj//app/a.py"), Some(String::from("app")));
    assert_eq!(path_first_below("/proj", "/proj"), None);
    assert_eq!(path_first_below("/proj", "/project/a"), None);
    assert_eq!(path_first_below("/proj", "proj/a"), None);
    assert_eq!(path_first_below("/a/b", "/a/c/b/d"), None);
    assert_eq!(path_first_below("", "a/b"), Some(String::from("a")));
    assert_eq!(path_join("/proj", "app"), "/proj/app");
    assert_eq!(path_join("/proj/", "app"), "/proj/app");
    assert_eq!(path_join("", "app"), "app");
    assert_eq!(path_join("/proj", "/abs"), "/abs");
}

#[test]
fn text_helpers_agree_with_std() {
    assert_eq!(to_chars("héllo"), vec!['h', 'é', 'l', 'l', 'o']);
    assert!(same_text("abc", "abc"));
    assert!(!same_text("abc", "abd"));
    assert!(!same_text("abc", "ab"));
    assert_eq!(trimmed("  a b\t\n"), "a b");
    assert_eq!(trimmed("\u{a0}x\u{3000}"), "x");
    assert_eq!(trimmed("   "), "");
    assert_eq!(trimmed(""), "");
    let mut n: u32 = 0;
    while n < 0x3100 {
        if let Some(c) = char::from_u32(n) {
            assert_eq!(is_whitespace(c), c.is_whitespace());
        }
        n += 1;
    }
}
