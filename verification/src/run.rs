//! The decisions of the command-line program: what a mode does, which
//! input a build reads, and where its PDF goes.
use vstd::prelude::*;
use vstd::string::*;

use crate::config::{Config, Mode};
use crate::paths::{
    lemma_extension_idempotent, lemma_extension_keeps_directory, name_start, set_extension,
    trim_trailing, with_extension,
};

verus! {

/// `pdf`, the extension of the compiled document.
pub open spec fn pdf_extension() -> Seq<char> {
    seq!['p', 'd', 'f']
}

/// The path of the PDF compiled from `input_path`: the input path with
/// its extension set to `pdf`, next to the input file.
pub fn pdf_output_path(input_path: &str) -> (r: String)
    ensures
        r@ == with_extension(input_path@, pdf_extension()),
{
    proof {
        reveal_strlit("pdf");
    }
    let r = set_extension(input_path, "pdf");
    assert("pdf"@ =~= pdf_extension());
    r
}

/// Compiling `dir/name.tex` writes `dir/name.pdf`: the PDF path keeps the
/// directory part of the input path, and computing it from a PDF path
/// gives that path back.
pub proof fn lemma_pdf_beside_input(input_path: Seq<char>)
    ensures
        ({
            let start = name_start(trim_trailing(input_path));
            let out = with_extension(input_path, pdf_extension());
            &&& start <= out.len()
            &&& out.take(start) == input_path.take(start)
            &&& with_extension(out, pdf_extension()) == out
        }),
{
    lemma_extension_keeps_directory(input_path, pdf_extension());
    lemma_extension_idempotent(input_path, pdf_extension());
}

/// What the program does in a mode.
#[derive(Debug, Clone)]
pub enum RunAction {
    /// Prepare the TeX tree, then compile the input.
    Build,
    /// Prepare the TeX tree.
    Install,
    /// Stop with this error.
    Fail(String),
}

/// `serve mode is not implemented yet`.
pub open spec fn serve_unsupported_message() -> Seq<char> {
    "serve mode is not implemented yet"@
}

/// What the program does in `mode`; serving is not available.
pub fn run_action(mode: Mode) -> (r: RunAction)
    ensures
        match mode {
            Mode::Build => r is Build,
            Mode::Install => r is Install,
            Mode::Serve => r matches RunAction::Fail(e) && e@ == serve_unsupported_message(),
        },
{
    match mode {
        Mode::Build => RunAction::Build,
        Mode::Install => RunAction::Install,
        Mode::Serve => RunAction::Fail("serve mode is not implemented yet".to_owned()),
    }
}

/// `build mode needs an input .tex file`.
pub open spec fn missing_input_message() -> Seq<char> {
    "build mode needs an input .tex file"@
}

/// The input file of a build: the configured input, or an error where none is given.
pub fn build_input(config: &Config) -> (r: Result<String, String>)
    ensures
        match config.input {
            Some(i) => r == Ok::<String, String>(i),
            None => r matches Err(e) && e@ == missing_input_message(),
        },
{
    match &config.input {
        Some(i) => Ok(i.clone()),
        None => Err("build mode needs an input .tex file".to_owned()),
    }
}

} // verus!
