//! The TeX environment (where the TeX tree and the format cache live), the
//! compiler's input and output, and the log captured while it runs.
use vstd::prelude::*;
use vstd::slice::slice_to_vec;
use vstd::string::*;
use vstd::utf8::*;

use crate::paths::{components, join, path_components, path_join, same_components, same_path};

verus! {

/// Name of the data directory below the platform's local data directory.
pub open spec fn default_dir_name() -> Seq<char> {
    seq!['e', 'd', 'o', 't', 'e', 'x']
}

/// Name of the TeX tree directory below `local_dir`.
pub open spec fn tree_dir_name() -> Seq<char> {
    seq!['t', 'e', 'x', 'm', 'f']
}

/// Name of the format cache directory below `local_dir`.
pub open spec fn cache_dir_name() -> Seq<char> {
    seq!['t', 'e', 'c', 't', 'o', 'n', 'i', 'c', '-', 'c', 'a', 'c', 'h', 'e']
}

/// `.local`, the local data directory below the home directory.
pub open spec fn local_share_name() -> Seq<char> {
    seq!['.', 'l', 'o', 'c', 'a', 'l']
}

/// The platform's local data directory: `$HOME/.local`, or `.` without a home.
pub open spec fn platform_data_dir(home: Option<Seq<char>>) -> Seq<char> {
    match home {
        Some(h) => path_join(h, local_share_name()),
        None => seq!['.'],
    }
}

fn default_dir_name_str() -> (s: &'static str)
    ensures
        s@ == default_dir_name(),
{
    proof {
        reveal_strlit("edotex");
    }
    "edotex"
}

fn tree_dir_name_str() -> (s: &'static str)
    ensures
        s@ == tree_dir_name(),
{
    proof {
        reveal_strlit("texmf");
    }
    "texmf"
}

fn cache_dir_name_str() -> (s: &'static str)
    ensures
        s@ == cache_dir_name(),
{
    proof {
        reveal_strlit("tectonic-cache");
    }
    "tectonic-cache"
}

/// Returns the platform's local data directory on Linux and macOS, given the
/// value of `HOME`; `.` without it (and on other platforms, which pass none).
pub fn default_local_dir(home: Option<&str>) -> (r: String)
    ensures
        r@ == platform_data_dir(
            match home {
                Some(h) => Some(h@),
                None => None,
            },
        ),
{
    match home {
        Some(h) => {
            proof {
                reveal_strlit(".local");
            }
            join(h, ".local")
        },
        None => {
            proof {
                reveal_strlit(".");
            }
            ".".to_owned()
        },
    }
}

/// Paths used by the embedded TeX compiler.
#[allow(non_camel_case_types)]
#[derive(Debug, Clone)]
pub struct TeX_Env {
    /// Base directory for local TeX data.
    pub local_dir: String,
    /// Local TeX tree directory.
    pub tree_path: Option<String>,
    /// Tectonic format cache directory.
    pub cache_path: Option<String>,
    /// Additional directories searched for TeX inputs.
    pub search_paths: Vec<String>,
}

/// The model of a `TeX_Env`: its paths as character sequences.
pub struct TexEnvView {
    pub local_dir: Seq<char>,
    pub tree_path: Option<Seq<char>>,
    pub cache_path: Option<Seq<char>>,
    pub search_paths: Seq<Seq<char>>,
}

impl View for TeX_Env {
    type V = TexEnvView;

    open spec fn view(&self) -> TexEnvView {
        TexEnvView {
            local_dir: self.local_dir@,
            tree_path: self.tree_path.deep_view(),
            cache_path: self.cache_path.deep_view(),
            search_paths: self.search_paths.deep_view(),
        }
    }
}

/// The default environment: `edotex` below the platform's local data
/// directory `data_dir`, no other path set.
pub open spec fn default_tex_env(data_dir: Seq<char>) -> TexEnvView {
    TexEnvView {
        local_dir: path_join(data_dir, default_dir_name()),
        tree_path: None,
        cache_path: None,
        search_paths: Seq::empty(),
    }
}

/// The TeX tree directory in effect: the configured one, or `local_dir/texmf`.
pub open spec fn effective_tree_path(env: TexEnvView) -> Seq<char> {
    match env.tree_path {
        Some(p) => p,
        None => path_join(env.local_dir, tree_dir_name()),
    }
}

/// The format cache directory in effect: the configured one, or
/// `local_dir/tectonic-cache`.
pub open spec fn effective_cache_path(env: TexEnvView) -> Seq<char> {
    match env.cache_path {
        Some(p) => p,
        None => path_join(env.local_dir, cache_dir_name()),
    }
}

impl TeX_Env {
    /// The default environment: `local_dir` is `edotex` below the platform's
    /// local data directory `data_dir` (see `default_local_dir`), nothing
    /// else is set.
    pub fn default_in(data_dir: &str) -> (env: TeX_Env)
        ensures
            env@ == default_tex_env(data_dir@),
    {
        let env = TeX_Env {
            local_dir: join(data_dir, default_dir_name_str()),
            tree_path: None,
            cache_path: None,
            search_paths: Vec::new(),
        };
        assert(env.search_paths.deep_view() =~= Seq::<Seq<char>>::empty());
        env
    }

    /// Returns the local TeX tree path, using the default below `local_dir`.
    pub fn tree_path(&self) -> (r: String)
        ensures
            r@ == effective_tree_path(self@),
    {
        match &self.tree_path {
            Some(p) => p.clone(),
            None => join(self.local_dir.as_str(), tree_dir_name_str()),
        }
    }

    /// Returns the format cache path, using the default below `local_dir`.
    pub fn cache_path(&self) -> (r: String)
        ensures
            r@ == effective_cache_path(self@),
    {
        match &self.cache_path {
            Some(p) => p.clone(),
            None => join(self.local_dir.as_str(), cache_dir_name_str()),
        }
    }

    /// Same as `tree_path`.
    pub fn get_tree_path(&self) -> (r: String)
        ensures
            r@ == effective_tree_path(self@),
    {
        self.tree_path()
    }

    /// Same as `cache_path`.
    pub fn get_cache_path(&self) -> (r: String)
        ensures
            r@ == effective_cache_path(self@),
    {
        self.cache_path()
    }
}

/// The directories whose subtrees are searched for TeX inputs, in order:
/// the TeX tree, then each configured search path.
pub open spec fn search_roots_of(env: TexEnvView) -> Seq<Seq<char>> {
    seq![effective_tree_path(env)] + env.search_paths
}

/// A configured TeX tree or format cache is used as given; without one
/// the tree is `texmf` and the cache `tectonic-cache` below `local_dir`.
pub proof fn lemma_tree_and_cache_paths(env: TexEnvView)
    ensures
        env.tree_path matches Some(p) ==> effective_tree_path(env) == p,
        env.tree_path is None ==> effective_tree_path(env) == path_join(
            env.local_dir,
            seq!['t', 'e', 'x', 'm', 'f'],
        ),
        env.cache_path matches Some(p) ==> effective_cache_path(env) == p,
        env.cache_path is None ==> effective_cache_path(env) == path_join(
            env.local_dir,
            seq!['t', 'e', 'c', 't', 'o', 'n', 'i', 'c', '-', 'c', 'a', 'c', 'h', 'e'],
        ),
{
}

/// The search roots are the TeX tree in effect (the configured tree where
/// one is given, else `local_dir/texmf`), then the configured search paths
/// in order.
pub proof fn lemma_search_roots(env: TexEnvView)
    ensures
        search_roots_of(env).len() == env.search_paths.len() + 1,
        search_roots_of(env)[0] == effective_tree_path(env),
        env.tree_path matches Some(p) ==> search_roots_of(env)[0] == p,
        env.tree_path is None ==> search_roots_of(env)[0] == path_join(
            env.local_dir,
            seq!['t', 'e', 'x', 'm', 'f'],
        ),
        forall|i: int| 0 <= i < env.search_paths.len() ==> #[trigger] search_roots_of(env)[i + 1] == env.search_paths[i],
{
    lemma_tree_and_cache_paths(env);
}

impl TeX_Env {
    /// The directories whose subtrees are searched for TeX inputs, in order:
    /// the TeX tree, then each configured search path.
    pub fn search_roots(&self) -> (r: Vec<String>)
        ensures
            r.deep_view() == search_roots_of(self@),
    {
        let mut r: Vec<String> = Vec::new();
        r.push(self.tree_path());
        let mut i: usize = 0;
        while i < self.search_paths.len()
            invariant
                i <= self.search_paths.len(),
                r.deep_view() =~= seq![effective_tree_path(self@)] + self.search_paths.deep_view().take(
                    i as int,
                ),
            decreases self.search_paths.len() - i,
        {
            let ghost before = r.deep_view();
            let p = self.search_paths[i].clone();
            r.push(p);
            assert(r.deep_view() =~= before.push(self.search_paths[i as int]@));
            assert(self.search_paths.deep_view().take(i + 1) =~= self.search_paths.deep_view().take(
                i as int,
            ).push(self.search_paths[i as int]@));
            i = i + 1;
        }
        assert(self.search_paths.deep_view().take(self.search_paths.len() as int)
            =~= self.search_paths.deep_view());
        r
    }
}

/// Whether some entry of `r` is the same path as `p`.
pub open spec fn contains_path(r: Seq<Seq<char>>, p: Seq<char>) -> bool {
    exists|j: int| 0 <= j < r.len() && #[trigger] same_path(r[j], p)
}

/// The paths of `s` in order, each left out where an earlier one is the same
/// path: the first spelling of every path is kept.
pub open spec fn unique_paths(s: Seq<Seq<char>>) -> Seq<Seq<char>>
    decreases s.len(),
{
    if s.len() == 0 {
        Seq::empty()
    } else {
        let r = unique_paths(s.drop_last());
        if contains_path(r, s.last()) {
            r
        } else {
            r.push(s.last())
        }
    }
}

/// The search path list made of the directories met while walking the
/// search roots (each directory before its subdirectories, the roots in
/// order): every directory once, at its first place.
pub fn unique_search_paths(walk: &Vec<String>) -> (r: Vec<String>)
    ensures
        r.deep_view() == unique_paths(walk.deep_view()),
{
    let mut r: Vec<String> = Vec::new();
    let mut keys: Vec<Vec<String>> = Vec::new();
    let mut i: usize = 0;
    assert(walk.deep_view().take(0) =~= Seq::<Seq<char>>::empty());
    while i < walk.len()
        invariant
            i <= walk.len(),
            r.deep_view() == unique_paths(walk.deep_view().take(i as int)),
            keys.len() == r.len(),
            forall|j: int| 0 <= j < keys.len() ==> #[trigger] keys[j].deep_view() == path_components(r[j]@),
        decreases walk.len() - i,
    {
        let ghost prefix = walk.deep_view().take(i + 1);
        assert(prefix.drop_last() =~= walk.deep_view().take(i as int));
        assert(prefix.last() == walk[i as int]@);
        let key = components(walk[i].as_str());
        let mut found = false;
        let mut j: usize = 0;
        while j < keys.len()
            invariant
                j <= keys.len(),
                keys.len() == r.len(),
                forall|k: int| 0 <= k < keys.len() ==> #[trigger] keys[k].deep_view() == path_components(r[k]@),
                key.deep_view() == path_components(walk[i as int]@),
                found <==> exists|k: int| 0 <= k < j && #[trigger] same_path(r[k]@, walk[i as int]@),
            decreases keys.len() - j,
        {
            if same_components(&keys[j], &key) {
                assert(same_path(r[j as int]@, walk[i as int]@));
                found = true;
            }
            j = j + 1;
        }
        assert(found <==> contains_path(r.deep_view(), walk[i as int]@)) by {
            if found {
                let k = choose|k: int| 0 <= k < j && #[trigger] same_path(r[k]@, walk[i as int]@);
                assert(r.deep_view()[k] == r[k]@);
            }
            if contains_path(r.deep_view(), walk[i as int]@) {
                let k = choose|k: int| 0 <= k < r.deep_view().len() && #[trigger] same_path(r.deep_view()[k], walk[i as int]@);
                assert(r.deep_view()[k] == r[k]@);
            }
        }
        if !found {
            r.push(walk[i].clone());
            keys.push(key);
            assert(r.deep_view() =~= unique_paths(walk.deep_view().take(i as int)).push(walk[i as int]@));
        }
        i = i + 1;
    }
    assert(walk.deep_view().take(walk.len() as int) =~= walk.deep_view());
    r
}

/// The search path list names every directory at most once: no two of its
/// entries are the same path.
pub proof fn lemma_unique_paths_distinct(s: Seq<Seq<char>>)
    ensures
        forall|i: int, j: int|
            0 <= i < j < unique_paths(s).len() ==> !same_path(
                #[trigger] unique_paths(s)[i],
                #[trigger] unique_paths(s)[j],
            ),
    decreases s.len(),
{
    if s.len() > 0 {
        lemma_unique_paths_distinct(s.drop_last());
        let r = unique_paths(s.drop_last());
        if !contains_path(r, s.last()) {
            assert forall|i: int, j: int|
                0 <= i < j < unique_paths(s).len() implies !same_path(
                #[trigger] unique_paths(s)[i],
                #[trigger] unique_paths(s)[j],
            ) by {
                if j == r.len() {
                    assert(!same_path(r[i], s.last()));
                } else {
                    assert(unique_paths(s)[i] == r[i] && unique_paths(s)[j] == r[j]);
                }
            }
        }
    }
}

/// Every directory met on the walk is in the search path list.
pub proof fn lemma_unique_paths_cover(s: Seq<Seq<char>>)
    ensures
        forall|k: int| 0 <= k < s.len() ==> contains_path(unique_paths(s), #[trigger] s[k]),
    decreases s.len(),
{
    if s.len() > 0 {
        lemma_unique_paths_cover(s.drop_last());
        let r = unique_paths(s.drop_last());
        assert forall|k: int| 0 <= k < s.len() implies contains_path(unique_paths(s), #[trigger] s[k]) by {
            if k < s.len() - 1 {
                assert(s[k] == s.drop_last()[k]);
                assert(contains_path(r, s[k]));
                let j = choose|j: int| 0 <= j < r.len() && #[trigger] same_path(r[j], s[k]);
                assert(unique_paths(s)[j] == r[j]);
            } else if !contains_path(r, s.last()) {
                assert(unique_paths(s)[r.len() as int] == s.last());
                assert(same_path(unique_paths(s)[r.len() as int], s[k]));
            }
        }
    }
}

/// Every entry of the search path list is a directory met on the walk,
/// spelled as it was met.
pub proof fn lemma_unique_paths_from_walk(s: Seq<Seq<char>>)
    ensures
        forall|k: int| 0 <= k < unique_paths(s).len() ==> s.contains(#[trigger] unique_paths(s)[k]),
    decreases s.len(),
{
    if s.len() > 0 {
        lemma_unique_paths_from_walk(s.drop_last());
        let r = unique_paths(s.drop_last());
        assert forall|k: int| 0 <= k < unique_paths(s).len() implies s.contains(#[trigger] unique_paths(s)[k]) by {
            if k < r.len() {
                assert(unique_paths(s)[k] == r[k]);
                assert(s.drop_last().contains(r[k]));
                let m = choose|m: int| 0 <= m < s.drop_last().len() && s.drop_last()[m] == r[k];
                assert(s[m] == r[k]);
            } else {
                assert(unique_paths(s)[k] == s[s.len() - 1]);
            }
        }
    }
}

/// One step of building the search path list: a directory met on the walk
/// is added at the end where no entry is the same path, and the list is
/// left as it is otherwise.
pub proof fn lemma_unique_paths_step(s: Seq<Seq<char>>, p: Seq<char>)
    ensures
        unique_paths(s.push(p)) == if contains_path(unique_paths(s), p) {
            unique_paths(s)
        } else {
            unique_paths(s).push(p)
        },
{
    assert(s.push(p).drop_last() =~= s);
}

/// Walking further only adds to the end of the search path list: the list
/// for a walk is a prefix of the list for any longer walk.
pub proof fn lemma_unique_paths_prefix(s: Seq<Seq<char>>, t: Seq<Seq<char>>)
    ensures
        unique_paths(s).len() <= unique_paths(s + t).len(),
        unique_paths(s + t).take(unique_paths(s).len() as int) == unique_paths(s),
    decreases t.len(),
{
    if t.len() == 0 {
        assert(s + t =~= s);
        assert(unique_paths(s).take(unique_paths(s).len() as int) =~= unique_paths(s));
    } else {
        lemma_unique_paths_prefix(s, t.drop_last());
        assert((s + t).drop_last() =~= s + t.drop_last());
        let u = unique_paths(s + t.drop_last());
        let n = unique_paths(s).len() as int;
        if !contains_path(u, (s + t).last()) {
            assert(u.push((s + t).last()).take(n) =~= u.take(n));
        }
    }
}

/// The input that the engine compiles: nonempty injected code, a newline,
/// then the document; the document alone where no code or empty code is given.
pub open spec fn injected_input(input: Seq<u8>, inject: Option<Seq<char>>) -> Seq<u8> {
    match inject {
        Some(code) => if code.len() > 0 {
            encode_utf8(code) + seq![10u8] + input
        } else {
            input
        },
        None => input,
    }
}

/// Nonempty injected code comes first, as UTF-8 bytes, then one newline
/// byte, then the document unchanged; empty or no code leaves the document
/// as it is.
pub proof fn lemma_injection(input: Seq<u8>, code: Seq<char>)
    ensures
        code.len() > 0 ==> ({
            let r = injected_input(input, Some(code));
            let n = encode_utf8(code).len();
            &&& r.len() == n + 1 + input.len()
            &&& r.take(n as int) == encode_utf8(code)
            &&& r[n as int] == 10u8
            &&& r.skip((n + 1) as int) == input
        }),
        injected_input(input, Some(Seq::empty())) == input,
        injected_input(input, None) == input,
{
    if code.len() > 0 {
        let r = injected_input(input, Some(code));
        let n = encode_utf8(code).len();
        assert(r.take(n as int) =~= encode_utf8(code));
        assert(r.skip((n + 1) as int) =~= input);
    }
}

/// Prepends nonempty `inject` code, followed by a newline, to the document.
pub fn inject_input(input: Vec<u8>, inject: Option<&str>) -> (r: Vec<u8>)
    ensures
        r@ == injected_input(input@, inject.deep_view()),
{
    match inject {
        Some(code) => {
            if code.is_empty() {
                input
            } else {
                let mut combined = slice_to_vec(code.as_bytes());
                combined.push(10u8);
                let mut rest = input;
                combined.append(&mut rest);
                combined
            }
        },
        None => input,
    }
}

/// Successful compiler output.
#[allow(non_camel_case_types)]
#[derive(Debug, Clone)]
pub struct TeX_Output {
    pub pdf: Vec<u8>,
    pub output_log: String,
}

/// Same as `TeX_Output`.
#[allow(non_camel_case_types)]
pub type TeX_Outup = TeX_Output;

/// Failed compiler output with the stdout produced before the error.
#[allow(non_camel_case_types)]
#[derive(Debug, Clone)]
pub struct TeX_Error {
    pub message: String,
    pub output_log: String,
}

impl TeX_Error {
    /// An error with its message and the log captured so far.
    pub fn new(message: String, output_log: String) -> (e: TeX_Error)
        ensures
            e.message == message,
            e.output_log == output_log,
    {
        TeX_Error { message, output_log }
    }

    /// The text shown for this error: its message.
    pub fn to_display_string(&self) -> (r: String)
        ensures
            r@ == self.message@,
    {
        self.message.clone()
    }
}

/// `Tectonic did not create texput.pdf`.
pub open spec fn missing_pdf_message() -> Seq<char> {
    seq![
        'T', 'e', 'c', 't', 'o', 'n', 'i', 'c', ' ', 'd', 'i', 'd', ' ', 'n', 'o', 't', ' ', 'c',
        'r', 'e', 'a', 't', 'e', ' ', 't', 'e', 'x', 'p', 'u', 't', '.', 'p', 'd', 'f',
    ]
}

/// The result of a finished engine run: the PDF that the run produced with
/// the captured log, or, where it produced none, an error that keeps the log.
pub fn compile_result(pdf: Option<Vec<u8>>, output_log: String) -> (r: Result<TeX_Output, TeX_Error>)
    ensures
        match pdf {
            Some(data) => r == Ok::<TeX_Output, TeX_Error>(TeX_Output { pdf: data, output_log }),
            None => r is Err && r->Err_0.message@ == missing_pdf_message() && r->Err_0.output_log
                == output_log,
        },
{
    match pdf {
        Some(data) => Ok(TeX_Output { pdf: data, output_log }),
        None => {
            proof {
                reveal_strlit("Tectonic did not create texput.pdf");
            }
            let message = "Tectonic did not create texput.pdf".to_owned();
            assert(message@ =~= missing_pdf_message());
            Err(TeX_Error::new(message, output_log))
        },
    }
}

/// The kinds of status message that the engine reports.
#[derive(Debug, Clone, Copy, PartialEq, Eq, Structural)]
pub enum ReportKind {
    Note,
    Warning,
    Error,
}

/// The prefix of a status line of a kind: `note`, `warning` or `error`.
pub open spec fn kind_prefix(kind: ReportKind) -> Seq<char> {
    match kind {
        ReportKind::Note => "note"@,
        ReportKind::Warning => "warning"@,
        ReportKind::Error => "error"@,
    }
}

/// The status lines of a report: `<kind>: <message>`, then
/// `caused by: <cause>` for each error of the chain that comes with it.
pub open spec fn report_lines_of(kind: ReportKind, message: Seq<char>, causes: Seq<Seq<char>>) -> Seq<Seq<char>> {
    seq![kind_prefix(kind) + ": "@ + message] + causes.map_values(|c: Seq<char>| "caused by: "@ + c)
}

/// A report's first line is the kind (`note`, `warning`, `error`), a colon
/// and the message; each error of its chain follows on a line of its own,
/// after `caused by: `.
pub proof fn lemma_report_lines(kind: ReportKind, message: Seq<char>, causes: Seq<Seq<char>>)
    ensures
        report_lines_of(kind, message, causes).len() == causes.len() + 1,
        report_lines_of(kind, message, causes)[0] == match kind {
            ReportKind::Note => "note"@,
            ReportKind::Warning => "warning"@,
            ReportKind::Error => "error"@,
        } + ": "@ + message,
        forall|i: int| 0 <= i < causes.len() ==> #[trigger] report_lines_of(kind, message, causes)[i + 1]
            == "caused by: "@ + causes[i],
        forall|i: int| 0 <= i < causes.len() ==> #[trigger] error_report_lines_of(causes)[i] == if i == 0 {
            "error: "@
        } else {
            "caused by: "@
        } + causes[i],
        error_report_lines_of(causes).len() == causes.len(),
{
}

/// The status lines of a report of an engine message with its error chain.
pub fn report_lines(kind: ReportKind, message: &str, causes: &Vec<String>) -> (r: Vec<String>)
    ensures
        r.deep_view() == report_lines_of(kind, message@, causes.deep_view()),
{
    let mut first = match kind {
        ReportKind::Note => "note".to_owned(),
        ReportKind::Warning => "warning".to_owned(),
        ReportKind::Error => "error".to_owned(),
    };
    first.append(": ");
    first.append(message);
    let mut r: Vec<String> = Vec::new();
    r.push(first);
    let mut i: usize = 0;
    while i < causes.len()
        invariant
            i <= causes.len(),
            r.deep_view() =~= seq![kind_prefix(kind) + ": "@ + message@] + causes.deep_view().take(
                i as int,
            ).map_values(|c: Seq<char>| "caused by: "@ + c),
        decreases causes.len() - i,
    {
        let mut line = "caused by: ".to_owned();
        line.append(causes[i].as_str());
        let ghost before = r.deep_view();
        r.push(line);
        assert(r.deep_view() =~= before.push("caused by: "@ + causes[i as int]@));
        assert(causes.deep_view().take(i + 1) =~= causes.deep_view().take(i as int).push(causes[i as int]@));
        i = i + 1;
    }
    assert(causes.deep_view().take(causes.len() as int) =~= causes.deep_view());
    r
}

/// The status lines of a reported error chain: `error: <first>`, then
/// `caused by: <next>` for each further error.
pub open spec fn error_report_lines_of(chain: Seq<Seq<char>>) -> Seq<Seq<char>> {
    Seq::new(
        chain.len(),
        |i: int|
            if i == 0 {
                "error: "@ + chain[i]
            } else {
                "caused by: "@ + chain[i]
            },
    )
}

/// The status lines of a reported error chain.
pub fn error_report_lines(chain: &Vec<String>) -> (r: Vec<String>)
    ensures
        r.deep_view() == error_report_lines_of(chain.deep_view()),
{
    let mut r: Vec<String> = Vec::new();
    let mut i: usize = 0;
    while i < chain.len()
        invariant
            i <= chain.len(),
            r.len() == i,
            forall|k: int| 0 <= k < i ==> #[trigger] r[k]@ == error_report_lines_of(chain.deep_view())[k],
        decreases chain.len() - i,
    {
        let mut line = if i == 0 {
            "error: ".to_owned()
        } else {
            "caused by: ".to_owned()
        };
        line.append(chain[i].as_str());
        r.push(line);
        i = i + 1;
    }
    assert(r.deep_view() =~= error_report_lines_of(chain.deep_view()));
    r
}

/// The text that `String::from_utf8_lossy` makes of `bytes`: valid UTF-8
/// decoded, each invalid sequence replaced by U+FFFD.
pub uninterp spec fn utf8_lossy(bytes: Seq<u8>) -> Seq<char>;

/// Calls `String::from_utf8_lossy`. Its documentation promises the decoded
/// text for valid UTF-8; for other input the result is only named here.
#[verifier::external_body]
fn lossy_text(bytes: &[u8]) -> (s: String)
    ensures
        s@ == utf8_lossy(bytes@),
        valid_utf8(bytes@) ==> s@ == decode_utf8(bytes@),
{
    String::from_utf8_lossy(bytes).into_owned()
}

/// The status log captured while the engine runs. Every chunk of engine
/// output is added to the log as text; it is also passed on to the caller's
/// output until a write to that output has failed once.
pub struct CaptureStatus {
    log: String,
    write_failed: bool,
}

/// The model of a `CaptureStatus`: the log so far, and whether a write to
/// the output has failed.
pub struct CaptureView {
    pub log: Seq<char>,
    pub write_failed: bool,
}

impl View for CaptureStatus {
    type V = CaptureView;

    closed spec fn view(&self) -> CaptureView {
        CaptureView { log: self.log@, write_failed: self.write_failed }
    }
}

impl CaptureStatus {
    /// An empty log; nothing has failed yet.
    pub fn new() -> (s: CaptureStatus)
        ensures
            s@.log == Seq::<char>::empty(),
            !s@.write_failed,
    {
        CaptureStatus { log: String::new(), write_failed: false }
    }

    /// The captured log.
    pub fn finish(self) -> (log: String)
        ensures
            log@ == self@.log,
    {
        self.log
    }

    /// Whether a write to the output has failed.
    pub fn write_failed(&self) -> (b: bool)
        ensures
            b == self@.write_failed,
    {
        self.write_failed
    }

    /// Adds `bytes` to the log as text. Returns whether they are to be
    /// written to the output too: so they are until a write has failed.
    pub fn write_bytes(&mut self, bytes: &[u8]) -> (forward: bool)
        ensures
            final(self)@.log == old(self)@.log + utf8_lossy(bytes@),
            valid_utf8(bytes@) ==> final(self)@.log == old(self)@.log + decode_utf8(bytes@),
            final(self)@.write_failed == old(self)@.write_failed,
            forward == !old(self)@.write_failed,
    {
        let text = lossy_text(bytes);
        self.log.append(text.as_str());
        !self.write_failed
    }

    /// Adds `text` to the log: its UTF-8 bytes reach the log unchanged.
    /// Returns whether they are to be written to the output too.
    pub fn write_text(&mut self, text: &str) -> (forward: bool)
        ensures
            final(self)@.log == old(self)@.log + text@,
            final(self)@.write_failed == old(self)@.write_failed,
            forward == !old(self)@.write_failed,
    {
        proof {
            encode_utf8_valid_utf8(text@);
            encode_utf8_decode_utf8(text@);
        }
        self.write_bytes(text.as_bytes())
    }

    /// Records that a write to the output failed: nothing is passed on after it.
    pub fn record_write_error(&mut self)
        ensures
            final(self)@.log == old(self)@.log,
            final(self)@.write_failed,
    {
        self.write_failed = true;
    }

    /// Whether the log ends with a newline.
    pub fn ends_with_newline(&self) -> (b: bool)
        ensures
            b == (self@.log.len() > 0 && self@.log.last() == '\n'),
    {
        let n = self.log.as_str().unicode_len();
        n > 0 && self.log.as_str().get_char(n - 1) == '\n'
    }
}

} // verus!
