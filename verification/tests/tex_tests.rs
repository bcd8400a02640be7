use edotex::tex::{
    compile_result, default_local_dir, error_report_lines, inject_input, report_lines, ReportKind, unique_search_paths, CaptureStatus, TeX_Env,
    TeX_Error, TeX_Outup, TeX_Output,
};

fn s(v: &str) -> String {
    v.to_string()
}

fn env(local: &str) -> TeX_Env {
    TeX_Env { local_dir: s(local), tree_path: None, cache_path: None, search_paths: Vec::new() }
}

#[test]
fn tree_and_cache_default_below_local_dir() {
    let e = env("/home/ann/.local/edotex");
    assert_eq!(e.tree_path(), "/home/ann/.local/edotex/texmf");
    assert_eq!(e.cache_path(), "/home/ann/.local/edotex/tectonic-cache");
    assert_eq!(e.get_tree_path(), e.tree_path());
    assert_eq!(e.get_cache_path(), e.cache_path());
}

#[test]
fn configured_tree_and_cache_win() {
    let mut e = env("/data");
    e.tree_path = Some(s("/opt/texmf"));
    e.cache_path = Some(s("/var/cache/tectonic"));
    assert_eq!(e.tree_path(), "/opt/texmf");
    assert_eq!(e.cache_path(), "/var/cache/tectonic");
}

#[test]
fn default_env_for_home() {
    assert_eq!(default_local_dir(Some("/home/ann")), "/home/ann/.local");
    assert_eq!(default_local_dir(None), ".");
    let e = TeX_Env::default_in(&default_local_dir(Some("/home/ann")));
    assert_eq!(e.local_dir, "/home/ann/.local/edotex");
    assert_eq!(e.tree_path, None);
    assert_eq!(e.cache_path, None);
    assert!(e.search_paths.is_empty());
}

#[test]
fn search_roots_start_with_tree() {
    let mut e = env("/d");
    e.search_paths = vec![s("./styles"), s("./images")];
    assert_eq!(e.search_roots(), vec![s("/d/texmf"), s("./styles"), s("./images")]);
}

#[test]
fn unique_search_paths_keeps_first_spelling() {
    let walk = vec![
        s("/d/texmf"),
        s("/d/texmf/tex"),
        s("./styles"),
        s("styles"),
        s("./styles/"),
        s("/d/texmf//tex/"),
        s("./images"),
    ];
    assert_eq!(
        unique_search_paths(&walk),
        vec![s("/d/texmf"), s("/d/texmf/tex"), s("./styles"), s("styles"), s("./images")]
    );
    assert!(unique_search_paths(&Vec::new()).is_empty());
}

#[test]
fn unique_search_paths_matches_std_path_equality() {
    let walk: Vec<String> = ["a", "a/", "./a", "a/./b", "a/b", "/a", "//a", "b"].iter().map(|x| s(x)).collect();
    let mut expected: Vec<String> = Vec::new();
    let mut seen = std::collections::HashSet::new();
    for p in &walk {
        if seen.insert(std::path::PathBuf::from(p)) {
            expected.push(p.clone());
        }
    }
    assert_eq!(unique_search_paths(&walk), expected);
}

#[test]
fn inject_prepends_code_and_newline() {
    let input = b"\\documentclass{article}".to_vec();
    let out = inject_input(input.clone(), Some("\\def\\usesolution{nosolution}"));
    let mut expected = b"\\def\\usesolution{nosolution}\n".to_vec();
    expected.extend_from_slice(&input);
    assert_eq!(out, expected);
}

#[test]
fn inject_empty_or_none_leaves_input() {
    let input = b"body".to_vec();
    assert_eq!(inject_input(input.clone(), Some("")), input);
    assert_eq!(inject_input(input.clone(), None), input);
}

#[test]
fn inject_encodes_utf8() {
    let out = inject_input(Vec::new(), Some("é"));
    assert_eq!(out, vec![0xC3, 0xA9, b'\n']);
}

#[test]
fn compile_result_with_and_without_pdf() {
    let ok: TeX_Outup = compile_result(Some(vec![1, 2, 3]), s("log")).unwrap();
    assert_eq!(ok.pdf, vec![1, 2, 3]);
    assert_eq!(ok.output_log, "log");
    let err = compile_result(None, s("log2")).unwrap_err();
    assert_eq!(err.message, "Tectonic did not create texput.pdf");
    assert_eq!(err.output_log, "log2");
    assert_eq!(err.to_display_string(), "Tectonic did not create texput.pdf");
    let _: TeX_Output = ok;
}

#[test]
fn error_keeps_message_and_log() {
    let e = TeX_Error::new(s("boom"), s(""));
    assert_eq!(e.message, "boom");
    assert_eq!(e.output_log, "");
}

#[test]
fn capture_logs_and_forwards_until_failure() {
    let mut st = CaptureStatus::new();
    assert!(!st.write_failed());
    assert!(st.write_text("note: hello"));
    assert!(st.write_text("\n"));
    assert!(st.ends_with_newline());
    st.record_write_error();
    assert!(!st.write_bytes(b"more"));
    assert!(!st.ends_with_newline());
    assert!(st.write_failed());
    assert_eq!(st.finish(), "note: hello\nmore");
}

#[test]
fn capture_replaces_invalid_utf8() {
    let mut st = CaptureStatus::new();
    assert!(st.write_bytes(&[b'a', 0xFF, b'b']));
    assert_eq!(st.finish(), "a\u{FFFD}b");
}

#[test]
fn empty_log_has_no_newline() {
    let st = CaptureStatus::new();
    assert!(!st.ends_with_newline());
    assert_eq!(st.finish(), "");
}

#[test]
fn status_report_lines() {
    assert_eq!(report_lines(ReportKind::Warning, "x", &vec![s("a"), s("b")]), vec![s("warning: x"), s("caused by: a"), s("caused by: b")]);
    assert_eq!(report_lines(ReportKind::Note, "hi", &Vec::new()), vec![s("note: hi")]);
    assert_eq!(report_lines(ReportKind::Error, "bad", &vec![s("bad")]), vec![s("error: bad"), s("caused by: bad")]);
    assert_eq!(error_report_lines(&vec![s("e1"), s("e2"), s("e3")]), vec![s("error: e1"), s("caused by: e2"), s("caused by: e3")]);
    assert!(error_report_lines(&Vec::new()).is_empty());
}

#[test]
fn search_list_grows_at_the_end() {
    let walk = vec![s("a"), s("b"), s("a/"), s("c")];
    let mut prev: Vec<String> = Vec::new();
    for n in 0..=walk.len() {
        let now = unique_search_paths(&walk[..n].to_vec());
        assert_eq!(&now[..prev.len()], &prev[..]);
        prev = now;
    }
    assert_eq!(prev, vec![s("a"), s("b"), s("c")]);
}
