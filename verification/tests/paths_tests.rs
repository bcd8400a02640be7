use edotex::paths::{components, join, same_components, set_extension};

#[test]
fn join_appends_with_one_separator() {
    assert_eq!(join("/home/ann", ".local"), "/home/ann/.local");
    assert_eq!(join("/home/ann/", ".local"), "/home/ann/.local");
    assert_eq!(join("", "texmf"), "texmf");
    assert_eq!(join("data", ""), "data/");
}

#[test]
fn join_absolute_replaces() {
    assert_eq!(join("/home/ann", "/etc/tex"), "/etc/tex");
}

#[test]
fn join_matches_std() {
    for (base, p) in [("a", "b"), ("a/", "b"), ("", "b"), ("/", "b"), ("a", "/b"), ("a//", "b/c")] {
        let expected = std::path::Path::new(base).join(p);
        assert_eq!(join(base, p), expected.to_str().unwrap());
    }
}

#[test]
fn components_follow_std() {
    for p in ["a/b", "a//b/", "./a/./b", "/a/b", "/", "", ".", "..", "a/../b", ".//a", "a/."] {
        let ours = components(p);
        let theirs: Vec<String> = std::path::Path::new(p)
            .components()
            .map(|c| match c {
                std::path::Component::RootDir => "/".to_string(),
                std::path::Component::CurDir => ".".to_string(),
                std::path::Component::ParentDir => "..".to_string(),
                std::path::Component::Normal(n) => n.to_str().unwrap().to_string(),
                std::path::Component::Prefix(_) => unreachable!(),
            })
            .collect();
        assert_eq!(ours, theirs, "components of {p:?}");
    }
}

#[test]
fn same_components_compares_lists() {
    assert!(same_components(&components("a/b/"), &components("a//b")));
    assert!(!same_components(&components("a/b"), &components("./a/b")));
    assert!(!same_components(&components("/a"), &components("a")));
}

#[test]
fn set_extension_replaces_last_extension() {
    assert_eq!(set_extension("document.tex", "pdf"), "document.pdf");
    assert_eq!(set_extension("dir/report.v2.tex", "pdf"), "dir/report.v2.pdf");
    assert_eq!(set_extension("notes", "pdf"), "notes.pdf");
    assert_eq!(set_extension(".hidden", "pdf"), ".hidden.pdf");
    assert_eq!(set_extension("a/b.tex/", "pdf"), "a/b.pdf");
    assert_eq!(set_extension("name.", "pdf"), "name.pdf");
    assert_eq!(set_extension("document.tex", ""), "document");
}

#[test]
fn set_extension_without_file_name_keeps_path() {
    for p in ["", "/", ".", "..", "a/..", "./"] {
        assert_eq!(set_extension(p, "pdf"), p);
    }
}

#[test]
fn set_extension_matches_std() {
    for p in [
        "document.tex", "a/b.c.d", "x/.bashrc", "x/y/", "x/y/.", "x//y.z//", "...", "a.b/", "/a", "./q.tex", "a/./.",
    ] {
        let mut expected = std::path::PathBuf::from(p);
        expected.set_extension("pdf");
        assert_eq!(set_extension(p, "pdf"), expected.to_str().unwrap(), "set_extension of {p:?}");
    }
}
