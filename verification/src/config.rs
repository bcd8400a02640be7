//! Runtime configuration: built-in defaults, overlaid by an optional JSON
//! file, overlaid by the values given on the command line.
use vstd::prelude::*;
use vstd::string::*;

use crate::paths::{is_absolute, join, path_join};
use crate::tex::{default_dir_name, default_tex_env, local_share_name, platform_data_dir, TeX_Env, TexEnvView};
use crate::text::{ascii_lower, decimal, decimal_string, eq_ignore_ascii_case, str_eq_ignore_ascii_case};

verus! {

/// Runtime mode selected on the command line.
#[derive(Debug, Clone, Copy, PartialEq, Eq, Structural)]
pub enum Mode {
    /// Build a TeX input.
    Build,
    /// Install or prepare local TeX resources.
    Install,
    /// Start the edotex server.
    Serve,
}

impl Default for Mode {
    fn default() -> (m: Mode)
        ensures
            m == Mode::Build,
    {
        Mode::Build
    }
}

/// The command-line name of a mode.
pub open spec fn mode_name(m: Mode) -> Seq<char> {
    match m {
        Mode::Build => seq!['b', 'u', 'i', 'l', 'd'],
        Mode::Install => seq!['i', 'n', 's', 't', 'a', 'l', 'l'],
        Mode::Serve => seq!['s', 'e', 'r', 'v', 'e'],
    }
}

/// The mode whose name equals `s` up to ASCII case, if any.
pub open spec fn mode_named(s: Seq<char>) -> Option<Mode> {
    if eq_ignore_ascii_case(s, mode_name(Mode::Build)) {
        Some(Mode::Build)
    } else if eq_ignore_ascii_case(s, mode_name(Mode::Install)) {
        Some(Mode::Install)
    } else if eq_ignore_ascii_case(s, mode_name(Mode::Serve)) {
        Some(Mode::Serve)
    } else {
        None
    }
}

impl Mode {
    /// The mode named `name`, compared without regard to ASCII case
    /// (the command line's `build`, `install` and `serve`).
    pub fn from_name(name: &str) -> (m: Option<Mode>)
        ensures
            m == mode_named(name@),
    {
        proof {
            reveal_strlit("build");
            reveal_strlit("install");
            reveal_strlit("serve");
        }
        if str_eq_ignore_ascii_case(name, "build") {
            Some(Mode::Build)
        } else if str_eq_ignore_ascii_case(name, "install") {
            Some(Mode::Install)
        } else if str_eq_ignore_ascii_case(name, "serve") {
            Some(Mode::Serve)
        } else {
            None
        }
    }
}

/// Server binding configuration.
#[derive(Debug, Clone)]
pub struct ServerConfig {
    /// TCP port used by the server.
    pub port: u16,
    /// Host name or address used by the server.
    pub server_name: String,
}

/// The model of a `ServerConfig`.
pub struct ServerView {
    pub port: u16,
    pub server_name: Seq<char>,
}

impl View for ServerConfig {
    type V = ServerView;

    open spec fn view(&self) -> ServerView {
        ServerView { port: self.port, server_name: self.server_name@ }
    }
}

/// `host:port`.
pub open spec fn bind_address_of(s: ServerView) -> Seq<char> {
    s.server_name + seq![':'] + decimal(s.port as nat)
}

impl ServerConfig {
    /// Returns the server bind address as `host:port`.
    pub fn bind_address(&self) -> (r: String)
        ensures
            r@ == bind_address_of(self@),
    {
        proof {
            reveal_strlit(":");
        }
        let mut r = self.server_name.clone();
        r.append(":");
        let port = decimal_string(self.port as u128);
        r.append(port.as_str());
        r
    }
}

/// Complete runtime configuration.
#[derive(Debug, Clone)]
pub struct Config {
    /// Runtime mode selected for this invocation.
    pub mode: Mode,
    /// Optional input path for modes that need one.
    pub input: Option<String>,
    /// TeX code to prepend to the document; given per invocation only.
    pub inject: Option<String>,
    /// Server-related settings.
    pub server: ServerConfig,
    /// TeX-related paths.
    pub tex: TeX_Env,
}

/// The model of a `Config`.
pub struct ConfigView {
    pub mode: Mode,
    pub input: Option<Seq<char>>,
    pub inject: Option<Seq<char>>,
    pub server: ServerView,
    pub tex: TexEnvView,
}

impl View for Config {
    type V = ConfigView;

    open spec fn view(&self) -> ConfigView {
        ConfigView {
            mode: self.mode,
            input: self.input.deep_view(),
            inject: self.inject.deep_view(),
            server: self.server@,
            tex: self.tex@,
        }
    }
}

/// The default port.
pub open spec fn default_port() -> u16 {
    8080
}

/// The default host name, `localhost`.
pub open spec fn default_server_name() -> Seq<char> {
    seq!['l', 'o', 'c', 'a', 'l', 'h', 'o', 's', 't']
}

/// `.local/edotex`, the data directory below the home directory.
pub open spec fn home_data_suffix() -> Seq<char> {
    seq!['.', 'l', 'o', 'c', 'a', 'l', '/', 'e', 'd', 'o', 't', 'e', 'x']
}

/// `.edotex`, the data directory when there is no home directory.
pub open spec fn fallback_data_dir() -> Seq<char> {
    seq!['.', 'e', 'd', 'o', 't', 'e', 'x']
}

/// The default data directory: `$HOME/.local/edotex`, or `.edotex`.
pub open spec fn default_data_dir(home: Option<Seq<char>>) -> Seq<char> {
    match home {
        Some(h) => path_join(h, home_data_suffix()),
        None => fallback_data_dir(),
    }
}

/// The built-in configuration, with `local_dir` as its data directory.
pub open spec fn default_config(local_dir: Seq<char>) -> ConfigView {
    ConfigView {
        mode: Mode::Build,
        input: None,
        inject: None,
        server: ServerView { port: default_port(), server_name: default_server_name() },
        tex: TexEnvView {
            local_dir,
            tree_path: None,
            cache_path: None,
            search_paths: Seq::empty(),
        },
    }
}

/// Returns the default data directory on Linux and macOS, given the value
/// of `HOME`; `.edotex` without it (and on other platforms, which pass none).
pub fn default_local_dir(home: Option<&str>) -> (r: String)
    ensures
        r@ == default_data_dir(home.deep_view()),
{
    match home {
        Some(h) => {
            proof {
                reveal_strlit(".local/edotex");
            }
            join(h, ".local/edotex")
        },
        None => {
            proof {
                reveal_strlit(".edotex");
            }
            ".edotex".to_owned()
        },
    }
}

/// Optional TeX values read from JSON.
#[derive(Debug, Clone)]
pub struct PartialTexConfig {
    pub local_dir: Option<String>,
    pub tree_path: Option<String>,
    pub cache_path: Option<String>,
    pub search_paths: Option<Vec<String>>,
}

/// Optional server values read from JSON.
#[derive(Debug, Clone)]
pub struct PartialServerConfig {
    pub port: Option<u16>,
    pub server_name: Option<String>,
}

/// Optional top-level values read from JSON.
#[derive(Debug, Clone)]
pub struct PartialConfig {
    pub server: Option<PartialServerConfig>,
    pub tex: Option<PartialTexConfig>,
}

/// The model of a `PartialTexConfig`.
pub struct PartialTexView {
    pub local_dir: Option<Seq<char>>,
    pub tree_path: Option<Seq<char>>,
    pub cache_path: Option<Seq<char>>,
    pub search_paths: Option<Seq<Seq<char>>>,
}

/// The model of a `PartialServerConfig`.
pub struct PartialServerView {
    pub port: Option<u16>,
    pub server_name: Option<Seq<char>>,
}

/// The model of a `PartialConfig`.
pub struct PartialConfigView {
    pub server: Option<PartialServerView>,
    pub tex: Option<PartialTexView>,
}

impl View for PartialTexConfig {
    type V = PartialTexView;

    open spec fn view(&self) -> PartialTexView {
        PartialTexView {
            local_dir: self.local_dir.deep_view(),
            tree_path: self.tree_path.deep_view(),
            cache_path: self.cache_path.deep_view(),
            search_paths: self.search_paths.deep_view(),
        }
    }
}

impl View for PartialServerConfig {
    type V = PartialServerView;

    open spec fn view(&self) -> PartialServerView {
        PartialServerView { port: self.port, server_name: self.server_name.deep_view() }
    }
}

impl View for PartialConfig {
    type V = PartialConfigView;

    open spec fn view(&self) -> PartialConfigView {
        PartialConfigView {
            server: match self.server {
                Some(s) => Some(s@),
                None => None,
            },
            tex: match self.tex {
                Some(t) => Some(t@),
                None => None,
            },
        }
    }
}

/// The given value where there is one, else the current one.
pub open spec fn overlay<T>(current: T, given: Option<T>) -> T {
    match given {
        Some(v) => v,
        None => current,
    }
}

/// `given` wrapped in `Some` where there is one, else the current value.
pub open spec fn overlay_some<T>(current: Option<T>, given: Option<T>) -> Option<T> {
    match given {
        Some(v) => Some(v),
        None => current,
    }
}

/// The configuration `c` with the values that a JSON file gives laid over it.
pub open spec fn with_partial(c: ConfigView, p: PartialConfigView) -> ConfigView {
    let server = match p.server {
        Some(s) => ServerView {
            port: overlay(c.server.port, s.port),
            server_name: overlay(c.server.server_name, s.server_name),
        },
        None => c.server,
    };
    let tex = match p.tex {
        Some(t) => TexEnvView {
            local_dir: overlay(c.tex.local_dir, t.local_dir),
            tree_path: overlay_some(c.tex.tree_path, t.tree_path),
            cache_path: overlay_some(c.tex.cache_path, t.cache_path),
            search_paths: overlay(c.tex.search_paths, t.search_paths),
        },
        None => c.tex,
    };
    ConfigView { mode: c.mode, input: c.input, inject: c.inject, server, tex }
}

fn take_over<T>(current: &mut T, given: Option<T>)
    ensures
        *final(current) == overlay(*old(current), given),
{
    if let Some(v) = given {
        *current = v;
    }
}

fn take_over_some<T>(current: &mut Option<T>, given: Option<T>)
    ensures
        *final(current) == overlay_some(*old(current), given),
{
    if let Some(v) = given {
        *current = Some(v);
    }
}

impl Config {
    /// Builds the default configuration, with `local_dir` as its data
    /// directory (see `default_local_dir`).
    pub fn with_defaults(local_dir: String) -> (c: Config)
        ensures
            c@ == default_config(local_dir@),
    {
        proof {
            reveal_strlit("localhost");
        }
        let c = Config {
            mode: Mode::Build,
            input: None,
            inject: None,
            server: ServerConfig { port: 8080, server_name: "localhost".to_owned() },
            tex: TeX_Env {
                local_dir,
                tree_path: None,
                cache_path: None,
                search_paths: Vec::new(),
            },
        };
        assert(c.tex.search_paths.deep_view() =~= Seq::<Seq<char>>::empty());
        assert(c.server.server_name@ =~= default_server_name());
        c
    }

    /// Applies optional values from a JSON config.
    pub fn apply_partial(&mut self, partial_config: PartialConfig)
        ensures
            final(self)@ == with_partial(old(self)@, partial_config@),
    {
        if let Some(server) = partial_config.server {
            take_over(&mut self.server.port, server.port);
            take_over(&mut self.server.server_name, server.server_name);
        }
        if let Some(tex) = partial_config.tex {
            take_over(&mut self.tex.local_dir, tex.local_dir);
            take_over_some(&mut self.tex.tree_path, tex.tree_path);
            take_over_some(&mut self.tex.cache_path, tex.cache_path);
            take_over(&mut self.tex.search_paths, tex.search_paths);
        }
    }
}

/// Values given on the command line. Every field is optional.
#[derive(Debug, Clone)]
pub struct Args {
    /// Runtime mode to execute (`build`, `install` or `serve`), or the input
    /// when no mode is given.
    pub mode_or_input: Option<String>,
    /// Input file or directory, depending on the selected mode.
    pub input: Option<String>,
    /// Path to a JSON config file.
    pub config: Option<String>,
    /// Write the default configuration to this JSON file and exit.
    pub write_config: Option<String>,
    /// Server port.
    pub server_port: Option<u16>,
    /// Server host name or address.
    pub server_name: Option<String>,
    /// Base directory for edotex data.
    pub tex_local_dir: Option<String>,
    /// Path to the TeX tree directory.
    pub tex_tree_path: Option<String>,
    /// Path to the Tectonic cache directory.
    pub tex_cache_path: Option<String>,
    /// Additional TeX input search paths.
    pub tex_search_paths: Vec<String>,
    /// TeX code to prepend to the document.
    pub inject: Option<String>,
}

/// The model of an `Args`.
pub struct ArgsView {
    pub mode_or_input: Option<Seq<char>>,
    pub input: Option<Seq<char>>,
    pub config: Option<Seq<char>>,
    pub write_config: Option<Seq<char>>,
    pub server_port: Option<u16>,
    pub server_name: Option<Seq<char>>,
    pub tex_local_dir: Option<Seq<char>>,
    pub tex_tree_path: Option<Seq<char>>,
    pub tex_cache_path: Option<Seq<char>>,
    pub tex_search_paths: Seq<Seq<char>>,
    pub inject: Option<Seq<char>>,
}

impl View for Args {
    type V = ArgsView;

    open spec fn view(&self) -> ArgsView {
        ArgsView {
            mode_or_input: self.mode_or_input.deep_view(),
            input: self.input.deep_view(),
            config: self.config.deep_view(),
            write_config: self.write_config.deep_view(),
            server_port: self.server_port,
            server_name: self.server_name.deep_view(),
            tex_local_dir: self.tex_local_dir.deep_view(),
            tex_tree_path: self.tex_tree_path.deep_view(),
            tex_cache_path: self.tex_cache_path.deep_view(),
            tex_search_paths: self.tex_search_paths.deep_view(),
            inject: self.inject.deep_view(),
        }
    }
}

/// `unknown mode: ` followed by the word that named no mode.
pub open spec fn unknown_mode_message(word: Seq<char>) -> Seq<char> {
    seq!['u', 'n', 'k', 'n', 'o', 'w', 'n', ' ', 'm', 'o', 'd', 'e', ':', ' '] + word
}

/// The mode and input that the positional arguments select: a first word
/// that names a mode selects it (and the second is the input); otherwise
/// the first word is the input of a build, if no second word follows.
pub open spec fn select_mode_and_input(a: ArgsView) -> Result<(Mode, Option<Seq<char>>), Seq<char>> {
    match a.mode_or_input {
        None => Ok((Mode::Build, None)),
        Some(first) => match mode_named(first) {
            Some(m) => Ok((m, a.input)),
            None => if a.input is None {
                Ok((Mode::Build, Some(first)))
            } else {
                Err(unknown_mode_message(first))
            },
        },
    }
}

/// The configuration `c` with the values given on the command line laid
/// over it. Search paths given on the command line replace the list.
pub open spec fn with_args(c: ConfigView, a: ArgsView) -> ConfigView {
    ConfigView {
        mode: c.mode,
        input: c.input,
        inject: c.inject,
        server: ServerView {
            port: overlay(c.server.port, a.server_port),
            server_name: overlay(c.server.server_name, a.server_name),
        },
        tex: TexEnvView {
            local_dir: overlay(c.tex.local_dir, a.tex_local_dir),
            tree_path: overlay_some(c.tex.tree_path, a.tex_tree_path),
            cache_path: overlay_some(c.tex.cache_path, a.tex_cache_path),
            search_paths: if a.tex_search_paths.len() > 0 {
                a.tex_search_paths
            } else {
                c.tex.search_paths
            },
        },
    }
}

/// The defaults, with the JSON file's values laid over them where a file was read.
pub open spec fn file_config(file: Option<PartialConfigView>, local_dir: Seq<char>) -> ConfigView {
    match file {
        Some(p) => with_partial(default_config(local_dir), p),
        None => default_config(local_dir),
    }
}

/// The configuration of an invocation: defaults, overlaid by the JSON file,
/// overlaid by the command line; mode, input and injected code from the
/// command line.
pub open spec fn resolve_config(
    a: ArgsView,
    file: Option<PartialConfigView>,
    local_dir: Seq<char>,
) -> Result<ConfigView, Seq<char>> {
    match select_mode_and_input(a) {
        Err(e) => Err(e),
        Ok((mode, input)) => {
            let base = file_config(file, local_dir);
            Ok(
                with_args(
                    ConfigView {
                        mode,
                        input,
                        inject: a.inject,
                        server: base.server,
                        tex: base.tex,
                    },
                    a,
                ),
            )
        },
    }
}

/// What an invocation does before it resolves its configuration.
#[derive(Debug, Clone)]
pub enum StartupAction {
    /// Write the default configuration (what `use_args` resolves for this
    /// invocation) to this path, and stop there.
    WriteDefaultConfig(String),
    /// Read the JSON file at this path if it exists, then resolve.
    LoadConfig(Option<String>),
}

fn clone_opt(o: &Option<String>) -> (r: Option<String>)
    ensures
        r == *o,
{
    match o {
        Some(s) => Some(s.clone()),
        None => None,
    }
}

impl Args {
    /// The mode and the input that the positional arguments select.
    pub fn mode_and_input(&self) -> (r: Result<(Mode, Option<String>), String>)
        ensures
            match r {
                Ok((m, i)) => select_mode_and_input(self@) == Ok::<(Mode, Option<Seq<char>>), Seq<char>>(
                    (m, i.deep_view()),
                ),
                Err(e) => select_mode_and_input(self@) == Err::<(Mode, Option<Seq<char>>), Seq<char>>(e@),
            },
    {
        let first = match &self.mode_or_input {
            None => {
                return Ok((Mode::Build, None));
            },
            Some(first) => first,
        };
        if let Some(mode) = Mode::from_name(first.as_str()) {
            return Ok((mode, clone_opt(&self.input)));
        }
        if self.input.is_none() {
            return Ok((Mode::Build, Some(first.clone())));
        }
        proof {
            reveal_strlit("unknown mode: ");
        }
        let mut msg = "unknown mode: ".to_owned();
        msg.append(first.as_str());
        assert(msg@ =~= unknown_mode_message(first@));
        Err(msg)
    }

    /// Whether to write the default configuration or to load one.
    pub fn startup(&self) -> (r: StartupAction)
        ensures
            match self.write_config {
                Some(p) => r == StartupAction::WriteDefaultConfig(p),
                None => r == StartupAction::LoadConfig(self.config),
            },
    {
        match &self.write_config {
            Some(p) => StartupAction::WriteDefaultConfig(p.clone()),
            None => StartupAction::LoadConfig(clone_opt(&self.config)),
        }
    }
}

impl Config {
    /// Applies values explicitly provided on the command line.
    pub fn apply_args(&mut self, args: Args)
        ensures
            final(self)@ == with_args(old(self)@, args@),
    {
        take_over(&mut self.server.port, args.server_port);
        take_over(&mut self.server.server_name, args.server_name);
        take_over(&mut self.tex.local_dir, args.tex_local_dir);
        take_over_some(&mut self.tex.tree_path, args.tex_tree_path);
        take_over_some(&mut self.tex.cache_path, args.tex_cache_path);
        if args.tex_search_paths.len() > 0 {
            self.tex.search_paths = args.tex_search_paths;
        }
    }

    /// Resolves the configuration of an invocation: the defaults with data
    /// directory `local_dir`, overlaid by `file` (the values of the JSON
    /// config file, where one was read), overlaid by the command line `args`.
    /// Fails where the positional arguments name no mode and the input.
    /// With `write_config` the result is the default configuration alone,
    /// the one that is written to that path: no file value and no other
    /// command-line value applies, and the positional arguments are not read.
    pub fn use_args(args: Args, file: Option<PartialConfig>, local_dir: String) -> (r: Result<Config, String>)
        ensures
            args.write_config is Some ==> (r matches Ok(c) && c@ == default_config(local_dir@)),
            args.write_config is None ==> match r {
                Ok(c) => resolve_config(
                    args@,
                    match file {
                        Some(p) => Some(p@),
                        None => None,
                    },
                    local_dir@,
                ) == Ok::<ConfigView, Seq<char>>(c@),
                Err(e) => resolve_config(
                    args@,
                    match file {
                        Some(p) => Some(p@),
                        None => None,
                    },
                    local_dir@,
                ) == Err::<ConfigView, Seq<char>>(e@),
            },
    {
        if args.write_config.is_some() {
            return Ok(Config::with_defaults(local_dir));
        }
        let mut config = Config::with_defaults(local_dir);
        if let Some(p) = file {
            config.apply_partial(p);
        }
        let (mode, input) = match args.mode_and_input() {
            Ok(v) => v,
            Err(e) => {
                return Err(e);
            },
        };
        config.mode = mode;
        config.input = input;
        config.inject = clone_opt(&args.inject);
        config.apply_args(args);
        Ok(config)
    }
}

/// The port that a JSON file gives, if any.
pub open spec fn file_port(file: Option<PartialConfigView>) -> Option<u16> {
    match file {
        Some(p) => match p.server {
            Some(s) => s.port,
            None => None,
        },
        None => None,
    }
}

/// The host name that a JSON file gives, if any.
pub open spec fn file_server_name(file: Option<PartialConfigView>) -> Option<Seq<char>> {
    match file {
        Some(p) => match p.server {
            Some(s) => s.server_name,
            None => None,
        },
        None => None,
    }
}

/// The TeX values that a JSON file gives, if any.
pub open spec fn file_tex(file: Option<PartialConfigView>) -> Option<PartialTexView> {
    match file {
        Some(p) => p.tex,
        None => None,
    }
}

/// The built-in defaults: mode `build`, no input and no injected code,
/// port 8080 on `localhost`, the given data directory and no TeX tree,
/// cache or search path of its own; the data directory is
/// `$HOME/.local/edotex`, or `.edotex` without a home directory.
pub proof fn lemma_default_values(local_dir: Seq<char>, home: Seq<char>)
    ensures
        default_config(local_dir).mode == Mode::Build,
        default_config(local_dir).input is None,
        default_config(local_dir).inject is None,
        default_config(local_dir).server.port == 8080,
        default_config(local_dir).server.server_name == seq!['l', 'o', 'c', 'a', 'l', 'h', 'o', 's', 't'],
        default_config(local_dir).tex.local_dir == local_dir,
        default_config(local_dir).tex.tree_path is None,
        default_config(local_dir).tex.cache_path is None,
        default_config(local_dir).tex.search_paths.len() == 0,
        default_data_dir(Some(home)) == path_join(
            home,
            seq!['.', 'l', 'o', 'c', 'a', 'l', '/', 'e', 'd', 'o', 't', 'e', 'x'],
        ),
        default_data_dir(None) == seq!['.', 'e', 'd', 'o', 't', 'e', 'x'],
{
}

/// The modes are named `build`, `install` and `serve`, in any ASCII case;
/// the empty word names none.
pub proof fn lemma_mode_names()
    ensures
        mode_named(seq!['b', 'u', 'i', 'l', 'd']) == Some(Mode::Build),
        mode_named(seq!['i', 'n', 's', 't', 'a', 'l', 'l']) == Some(Mode::Install),
        mode_named(seq!['s', 'e', 'r', 'v', 'e']) == Some(Mode::Serve),
        mode_named(seq!['B', 'u', 'I', 'L', 'd']) == Some(Mode::Build),
        mode_named(seq!['S', 'E', 'R', 'V', 'E']) == Some(Mode::Serve),
        mode_named(Seq::empty()) is None,
{
    lemma_mode_name_roundtrip(Mode::Build);
    lemma_mode_name_roundtrip(Mode::Install);
    lemma_mode_name_roundtrip(Mode::Serve);
    let b = mode_name(Mode::Build);
    let u = seq!['B', 'u', 'I', 'L', 'd'];
    assert(ascii_lower('B') == 'b' && ascii_lower('I') == 'i' && ascii_lower('L') == 'l');
    assert(forall|i: int| 0 <= i < 5 ==> #[trigger] ascii_lower(u[i]) == ascii_lower(b[i])) by {
        assert(u[0] == 'B' && u[1] == 'u' && u[2] == 'I' && u[3] == 'L' && u[4] == 'd');
    }
    assert(eq_ignore_ascii_case(u, b));
    let v = seq!['S', 'E', 'R', 'V', 'E'];
    let sv = mode_name(Mode::Serve);
    assert(ascii_lower('S') == 's' && ascii_lower('E') == 'e' && ascii_lower('R') == 'r' && ascii_lower('V')
        == 'v');
    assert(forall|i: int| 0 <= i < 5 ==> #[trigger] ascii_lower(v[i]) == ascii_lower(sv[i])) by {
        assert(v[0] == 'S' && v[1] == 'E' && v[2] == 'R' && v[3] == 'V' && v[4] == 'E');
    }
    assert(eq_ignore_ascii_case(v, sv));
    assert(!eq_ignore_ascii_case(v, b)) by {
        assert(ascii_lower(v[0]) != ascii_lower(b[0]));
    }
    assert(!eq_ignore_ascii_case(v, mode_name(Mode::Install)));
}

/// The positional arguments: none select a build without input; a first
/// word that names a mode selects it, the second word being the input; any
/// other first word alone is the input of a build; followed by a second
/// word it is refused with `unknown mode: <word>`.
pub proof fn lemma_mode_selection(a: ArgsView)
    ensures
        a.mode_or_input is None ==> select_mode_and_input(a) == Ok::<(Mode, Option<Seq<char>>), Seq<char>>(
            (Mode::Build, None),
        ),
        (a.mode_or_input matches Some(f) && mode_named(f) is Some) ==> select_mode_and_input(a) == Ok::<
            (Mode, Option<Seq<char>>),
            Seq<char>,
        >((mode_named(a.mode_or_input->0)->0, a.input)),
        (a.mode_or_input matches Some(f) && mode_named(f) is None && a.input is None) ==> select_mode_and_input(a)
            == Ok::<(Mode, Option<Seq<char>>), Seq<char>>((Mode::Build, a.mode_or_input)),
        (a.mode_or_input matches Some(f) && mode_named(f) is None && a.input is Some) ==> select_mode_and_input(a)
            == Err::<(Mode, Option<Seq<char>>), Seq<char>>(
            seq!['u', 'n', 'k', 'n', 'o', 'w', 'n', ' ', 'm', 'o', 'd', 'e', ':', ' '] + a.mode_or_input->0,
        ),
{
}

/// The values that the JSON file written from configuration `c` gives:
/// every server and TeX setting of `c`.
pub open spec fn written_values(c: ConfigView) -> PartialConfigView {
    PartialConfigView {
        server: Some(PartialServerView { port: Some(c.server.port), server_name: Some(c.server.server_name) }),
        tex: Some(
            PartialTexView {
                local_dir: Some(c.tex.local_dir),
                tree_path: c.tex.tree_path,
                cache_path: c.tex.cache_path,
                search_paths: Some(c.tex.search_paths),
            },
        ),
    }
}

/// Reading back a written configuration file gives the configuration that
/// was written, whatever the defaults it is read over: its server and TeX
/// settings, with mode `build` and no input.
pub proof fn lemma_written_config_read_back(c: ConfigView, local_dir: Seq<char>)
    ensures
        with_partial(default_config(local_dir), written_values(c)) == (ConfigView {
            mode: Mode::Build,
            input: None,
            inject: None,
            server: c.server,
            tex: c.tex,
        }),
{
}

/// Precedence: for every setting, a value given on the command line wins;
/// else the value from the JSON config file; else the built-in default.
/// Search paths given on the command line replace the list from JSON.
/// Mode, input and injected code come from the command line alone.
pub proof fn lemma_precedence(a: ArgsView, file: Option<PartialConfigView>, local_dir: Seq<char>)
    ensures
        match resolve_config(a, file, local_dir) {
            Ok(c) => {
                &&& select_mode_and_input(a) == Ok::<(Mode, Option<Seq<char>>), Seq<char>>(
                    (c.mode, c.input),
                )
                &&& c.inject == a.inject
                &&& c.server.port == match a.server_port {
                    Some(p) => p,
                    None => match file_port(file) {
                        Some(p) => p,
                        None => default_port(),
                    },
                }
                &&& c.server.server_name == match a.server_name {
                    Some(n) => n,
                    None => match file_server_name(file) {
                        Some(n) => n,
                        None => default_server_name(),
                    },
                }
                &&& c.tex.local_dir == match a.tex_local_dir {
                    Some(d) => d,
                    None => match file_tex(file) {
                        Some(t) => match t.local_dir {
                            Some(d) => d,
                            None => local_dir,
                        },
                        None => local_dir,
                    },
                }
                &&& c.tex.tree_path == match a.tex_tree_path {
                    Some(d) => Some(d),
                    None => match file_tex(file) {
                        Some(t) => t.tree_path,
                        None => None,
                    },
                }
                &&& c.tex.cache_path == match a.tex_cache_path {
                    Some(d) => Some(d),
                    None => match file_tex(file) {
                        Some(t) => t.cache_path,
                        None => None,
                    },
                }
                &&& c.tex.search_paths == if a.tex_search_paths.len() > 0 {
                    a.tex_search_paths
                } else {
                    match file_tex(file) {
                        Some(t) => match t.search_paths {
                            Some(s) => s,
                            None => Seq::empty(),
                        },
                        None => Seq::empty(),
                    }
                }
            },
            Err(e) => select_mode_and_input(a) == Err::<(Mode, Option<Seq<char>>), Seq<char>>(e),
        },
{
}

/// Laying the same JSON values over a configuration twice changes nothing
/// the second time.
pub proof fn lemma_partial_idempotent(c: ConfigView, p: PartialConfigView)
    ensures
        with_partial(with_partial(c, p), p) == with_partial(c, p),
{
}

/// A JSON file that gives no value leaves the configuration as it is.
pub proof fn lemma_empty_partial(c: ConfigView, p: PartialConfigView)
    requires
        p.server is None || (p.server->0.port is None && p.server->0.server_name is None),
        p.tex is None || ({
            let t = p.tex->0;
            &&& t.local_dir is None
            &&& t.tree_path is None
            &&& t.cache_path is None
            &&& t.search_paths is None
        }),
    ensures
        with_partial(c, p) == c,
{
}

/// Laying the same command-line values over a configuration twice changes
/// nothing the second time.
pub proof fn lemma_args_idempotent(c: ConfigView, a: ArgsView)
    ensures
        with_args(with_args(c, a), a) == with_args(c, a),
{
}

/// Every mode is found again by its own name.
pub proof fn lemma_mode_name_roundtrip(m: Mode)
    ensures
        mode_named(mode_name(m)) == Some(m),
{
    let b = mode_name(Mode::Build);
    let i = mode_name(Mode::Install);
    let s = mode_name(Mode::Serve);
    assert(eq_ignore_ascii_case(mode_name(m), mode_name(m)));
    assert(!eq_ignore_ascii_case(i, b));
    assert(!eq_ignore_ascii_case(s, b)) by {
        assert(ascii_lower(s[0]) != ascii_lower(b[0]));
    }
    assert(!eq_ignore_ascii_case(s, i));
}

/// Every setting but the positional arguments is the same in `a` and `b`.
pub open spec fn same_options(a: ArgsView, b: ArgsView) -> bool {
    &&& a.config == b.config
    &&& a.write_config == b.write_config
    &&& a.server_port == b.server_port
    &&& a.server_name == b.server_name
    &&& a.tex_local_dir == b.tex_local_dir
    &&& a.tex_tree_path == b.tex_tree_path
    &&& a.tex_cache_path == b.tex_cache_path
    &&& a.tex_search_paths == b.tex_search_paths
    &&& a.inject == b.inject
}

/// `edotex document.tex` is `edotex build document.tex`: an input given
/// without a mode is built.
pub proof fn lemma_build_shorthand(
    a: ArgsView,
    b: ArgsView,
    doc: Seq<char>,
    file: Option<PartialConfigView>,
    local_dir: Seq<char>,
)
    requires
        a.mode_or_input == Some(doc),
        a.input is None,
        mode_named(doc) is None,
        b.mode_or_input == Some(mode_name(Mode::Build)),
        b.input == Some(doc),
        same_options(a, b),
    ensures
        resolve_config(a, file, local_dir) == resolve_config(b, file, local_dir),
        resolve_config(a, file, local_dir) is Ok,
{
    lemma_mode_name_roundtrip(Mode::Build);
}

/// With a home directory, the default data directory of the configuration
/// is that of the default TeX environment: both are `$HOME/.local/edotex`.
pub proof fn lemma_default_tex_env_agrees(home: Seq<char>)
    ensures
        default_config(default_data_dir(Some(home))).tex == default_tex_env(platform_data_dir(Some(home))),
{
    let l = local_share_name();
    let j = platform_data_dir(Some(home));
    assert(!is_absolute(l));
    assert(!is_absolute(home_data_suffix()));
    assert(!is_absolute(default_dir_name()));
    assert(j.len() > 0 && j.last() == 'l');
    assert(path_join(j, default_dir_name()) =~= path_join(home, home_data_suffix()));
}

} // verus!
