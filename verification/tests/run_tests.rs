use edotex::config::{Config, Mode};
use edotex::run::{build_input, pdf_output_path, run_action, RunAction};
use edotex::text::{decimal_string, str_eq_ignore_ascii_case};
use edotex::textree::{init_step, InitStep, TreeListing};

#[test]
fn pdf_goes_next_to_input() {
    assert_eq!(pdf_output_path("document.tex"), "document.pdf");
    assert_eq!(pdf_output_path("/work/thesis/main.tex"), "/work/thesis/main.pdf");
    assert_eq!(pdf_output_path("slides"), "slides.pdf");
}

#[test]
fn run_actions() {
    assert!(matches!(run_action(Mode::Build), RunAction::Build));
    assert!(matches!(run_action(Mode::Install), RunAction::Install));
    match run_action(Mode::Serve) {
        RunAction::Fail(e) => assert_eq!(e, "serve mode is not implemented yet"),
        other => panic!("unexpected {other:?}"),
    }
}

#[test]
fn build_needs_input() {
    let mut c = Config::with_defaults(edotex::config::default_local_dir(None));
    assert_eq!(build_input(&c), Err("build mode needs an input .tex file".to_string()));
    c.input = Some("doc.tex".to_string());
    assert_eq!(build_input(&c), Ok("doc.tex".to_string()));
}

#[test]
fn existing_tree_is_kept() {
    assert_eq!(init_step(TreeListing::NonEmpty), InitStep::Keep);
    assert_eq!(init_step(TreeListing::Empty), InitStep::Extract);
    assert_eq!(init_step(TreeListing::Missing), InitStep::Extract);
}

#[test]
fn decimal_rendering() {
    for n in [0u128, 7, 10, 99, 100, 8080, 65535, u64::MAX as u128] {
        assert_eq!(decimal_string(n), n.to_string());
    }
}

#[test]
fn ascii_case_folding() {
    assert!(str_eq_ignore_ascii_case("BuIlD", "build"));
    assert!(!str_eq_ignore_ascii_case("build", "buil"));
    assert!(!str_eq_ignore_ascii_case("é", "É"));
    assert!(str_eq_ignore_ascii_case("", ""));
}

#[test]
fn pdf_path_of_pdf_path_is_itself() {
    for p in ["document.tex", "a/b.c.tex", "notes", ".hidden", "dir/x.tex/"] {
        let once = pdf_output_path(p);
        assert_eq!(pdf_output_path(&once), once);
    }
}
