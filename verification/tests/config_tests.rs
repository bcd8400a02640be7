use edotex::config::{
    default_local_dir, Args, Config, Mode, PartialConfig, PartialServerConfig, PartialTexConfig,
    ServerConfig, StartupAction,
};
use edotex::tex::{default_local_dir as tex_local_dir, TeX_Env};

fn no_args() -> Args {
    Args {
        mode_or_input: None,
        input: None,
        config: None,
        write_config: None,
        server_port: None,
        server_name: None,
        tex_local_dir: None,
        tex_tree_path: None,
        tex_cache_path: None,
        tex_search_paths: Vec::new(),
        inject: None,
    }
}

fn s(v: &str) -> String {
    v.to_string()
}

#[test]
fn bind_address_is_host_colon_port() {
    let server = ServerConfig { port: 8080, server_name: s("localhost") };
    assert_eq!(server.bind_address(), "localhost:8080");
    let server = ServerConfig { port: 0, server_name: s("0.0.0.0") };
    assert_eq!(server.bind_address(), "0.0.0.0:0");
    let server = ServerConfig { port: 65535, server_name: s("::1") };
    assert_eq!(server.bind_address(), "::1:65535");
}

#[test]
fn defaults_use_home() {
    let c = Config::with_defaults(default_local_dir(Some("/home/ann")));
    assert_eq!(c.mode, Mode::Build);
    assert_eq!(c.input, None);
    assert_eq!(c.inject, None);
    assert_eq!(c.server.port, 8080);
    assert_eq!(c.server.server_name, "localhost");
    assert_eq!(c.tex.local_dir, "/home/ann/.local/edotex");
    assert_eq!(c.tex.tree_path, None);
    assert_eq!(c.tex.cache_path, None);
    assert!(c.tex.search_paths.is_empty());
}

#[test]
fn defaults_without_home() {
    assert_eq!(default_local_dir(None), ".edotex");
    assert_eq!(default_local_dir(Some("/root/")), "/root/.local/edotex");
}

#[test]
fn default_tex_env_agrees_with_default_config() {
    for home in ["/home/ann", "/home/ann/", "/", "", "rel"] {
        let c = Config::with_defaults(default_local_dir(Some(home)));
        let t = TeX_Env::default_in(&tex_local_dir(Some(home)));
        assert_eq!(c.tex.local_dir, t.local_dir);
    }
    // Without a home directory the two differ.
    assert_eq!(TeX_Env::default_in(&tex_local_dir(None)).local_dir, "./edotex");
    assert_eq!(Config::with_defaults(default_local_dir(None)).tex.local_dir, ".edotex");
}

#[test]
fn mode_names_ignore_ascii_case() {
    assert_eq!(Mode::from_name("build"), Some(Mode::Build));
    assert_eq!(Mode::from_name("INSTALL"), Some(Mode::Install));
    assert_eq!(Mode::from_name("Serve"), Some(Mode::Serve));
    assert_eq!(Mode::from_name("serv"), None);
    assert_eq!(Mode::from_name("document.tex"), None);
    assert_eq!(Mode::from_name(""), None);
    assert_eq!(Mode::default(), Mode::Build);
}

#[test]
fn mode_and_input_cases() {
    let a = no_args();
    assert_eq!(a.mode_and_input(), Ok((Mode::Build, None)));

    let mut a = no_args();
    a.mode_or_input = Some(s("document.tex"));
    assert_eq!(a.mode_and_input(), Ok((Mode::Build, Some(s("document.tex")))));

    let mut a = no_args();
    a.mode_or_input = Some(s("build"));
    a.input = Some(s("document.tex"));
    assert_eq!(a.mode_and_input(), Ok((Mode::Build, Some(s("document.tex")))));

    let mut a = no_args();
    a.mode_or_input = Some(s("install"));
    assert_eq!(a.mode_and_input(), Ok((Mode::Install, None)));

    let mut a = no_args();
    a.mode_or_input = Some(s("compile"));
    a.input = Some(s("document.tex"));
    assert_eq!(a.mode_and_input(), Err(s("unknown mode: compile")));
}

#[test]
fn startup_writes_or_loads() {
    let mut a = no_args();
    a.config = Some(s("./config.json"));
    match a.startup() {
        StartupAction::LoadConfig(p) => assert_eq!(p, Some(s("./config.json"))),
        other => panic!("unexpected {other:?}"),
    }
    a.write_config = Some(s("out.json"));
    match a.startup() {
        StartupAction::WriteDefaultConfig(p) => assert_eq!(p, "out.json"),
        other => panic!("unexpected {other:?}"),
    }
}

fn file_values() -> PartialConfig {
    PartialConfig {
        server: Some(PartialServerConfig { port: Some(9000), server_name: None }),
        tex: Some(PartialTexConfig {
            local_dir: Some(s("/srv/edotex")),
            tree_path: None,
            cache_path: Some(s("/var/cache/tex")),
            search_paths: Some(vec![s("/srv/styles")]),
        }),
    }
}

#[test]
fn json_overrides_defaults() {
    let mut c = Config::with_defaults(default_local_dir(Some("/home/ann")));
    c.apply_partial(file_values());
    assert_eq!(c.server.port, 9000);
    assert_eq!(c.server.server_name, "localhost");
    assert_eq!(c.tex.local_dir, "/srv/edotex");
    assert_eq!(c.tex.tree_path, None);
    assert_eq!(c.tex.cache_path, Some(s("/var/cache/tex")));
    assert_eq!(c.tex.search_paths, vec![s("/srv/styles")]);
}

#[test]
fn json_twice_is_json_once() {
    let mut once = Config::with_defaults(default_local_dir(Some("/home/ann")));
    once.apply_partial(file_values());
    let mut twice = once.clone();
    twice.apply_partial(file_values());
    assert_eq!(format!("{once:?}"), format!("{twice:?}"));
}

#[test]
fn empty_json_changes_nothing() {
    let before = Config::with_defaults(default_local_dir(Some("/home/ann")));
    let mut after = before.clone();
    after.apply_partial(PartialConfig { server: None, tex: None });
    after.apply_partial(PartialConfig {
        server: Some(PartialServerConfig { port: None, server_name: None }),
        tex: Some(PartialTexConfig { local_dir: None, tree_path: None, cache_path: None, search_paths: None }),
    });
    assert_eq!(format!("{before:?}"), format!("{after:?}"));
}

#[test]
fn cli_overrides_json_overrides_defaults() {
    let mut a = no_args();
    a.mode_or_input = Some(s("doc.tex"));
    a.server_name = Some(s("example.org"));
    a.tex_tree_path = Some(s("/opt/texmf"));
    a.tex_search_paths = vec![s("./styles"), s("./images")];
    a.inject = Some(s("\\def\\usesolution{nosolution}"));
    let c = Config::use_args(a, Some(file_values()), default_local_dir(Some("/home/ann"))).unwrap();
    assert_eq!(c.mode, Mode::Build);
    assert_eq!(c.input, Some(s("doc.tex")));
    assert_eq!(c.inject, Some(s("\\def\\usesolution{nosolution}")));
    assert_eq!(c.server.port, 9000);
    assert_eq!(c.server.server_name, "example.org");
    assert_eq!(c.tex.local_dir, "/srv/edotex");
    assert_eq!(c.tex.tree_path, Some(s("/opt/texmf")));
    assert_eq!(c.tex.cache_path, Some(s("/var/cache/tex")));
    assert_eq!(c.tex.search_paths, vec![s("./styles"), s("./images")]);
}

#[test]
fn cli_port_wins_and_empty_search_paths_keep_json_list() {
    let mut a = no_args();
    a.server_port = Some(1234);
    a.tex_local_dir = Some(s("/tmp/edotex-data"));
    a.tex_cache_path = Some(s("/tmp/cache"));
    let c = Config::use_args(a, Some(file_values()), default_local_dir(None)).unwrap();
    assert_eq!(c.server.port, 1234);
    assert_eq!(c.tex.local_dir, "/tmp/edotex-data");
    assert_eq!(c.tex.cache_path, Some(s("/tmp/cache")));
    assert_eq!(c.tex.search_paths, vec![s("/srv/styles")]);
}

#[test]
fn no_file_no_cli_gives_defaults() {
    let c = Config::use_args(no_args(), None, default_local_dir(None)).unwrap();
    assert_eq!(c.server.port, 8080);
    assert_eq!(c.tex.local_dir, ".edotex");
    assert_eq!(c.mode, Mode::Build);
}

#[test]
fn use_args_reports_unknown_mode() {
    let mut a = no_args();
    a.mode_or_input = Some(s("publish"));
    a.input = Some(s("doc.tex"));
    assert_eq!(Config::use_args(a, None, default_local_dir(None)).unwrap_err(), "unknown mode: publish");
}

#[test]
fn shorthand_equals_explicit_build() {
    let mut short = no_args();
    short.mode_or_input = Some(s("document.tex"));
    let mut explicit = no_args();
    explicit.mode_or_input = Some(s("build"));
    explicit.input = Some(s("document.tex"));
    let a = Config::use_args(short, Some(file_values()), default_local_dir(Some("/h"))).unwrap();
    let b = Config::use_args(explicit, Some(file_values()), default_local_dir(Some("/h"))).unwrap();
    assert_eq!(format!("{a:?}"), format!("{b:?}"));
}

#[test]
fn apply_args_twice_is_once() {
    let mut a = no_args();
    a.server_port = Some(7);
    a.tex_search_paths = vec![s("x")];
    let mut once = Config::with_defaults(default_local_dir(None));
    once.apply_args(a.clone());
    let mut twice = once.clone();
    twice.apply_args(a);
    assert_eq!(format!("{once:?}"), format!("{twice:?}"));
}

#[test]
fn written_config_reads_back() {
    let mut written = Config::with_defaults(default_local_dir(Some("/home/ann")));
    written.server.port = 9999;
    written.tex.cache_path = Some(s("/c"));
    let file = PartialConfig {
        server: Some(PartialServerConfig { port: Some(written.server.port), server_name: Some(written.server.server_name.clone()) }),
        tex: Some(PartialTexConfig {
            local_dir: Some(written.tex.local_dir.clone()),
            tree_path: written.tex.tree_path.clone(),
            cache_path: written.tex.cache_path.clone(),
            search_paths: Some(written.tex.search_paths.clone()),
        }),
    };
    let mut read = Config::with_defaults(default_local_dir(None));
    read.apply_partial(file);
    assert_eq!(format!("{:?}", read.server), format!("{:?}", written.server));
    assert_eq!(format!("{:?}", read.tex), format!("{:?}", written.tex));
    assert_eq!(read.mode, Mode::Build);
    assert_eq!(read.input, None);
}

#[test]
fn write_config_gives_defaults_only() {
    let mut a = no_args();
    a.write_config = Some(s("out.json"));
    a.mode_or_input = Some(s("publish"));
    a.input = Some(s("doc.tex"));
    a.server_port = Some(1);
    a.inject = Some(s("x"));
    let c = Config::use_args(a, Some(file_values()), default_local_dir(Some("/home/ann"))).unwrap();
    let d = Config::with_defaults(default_local_dir(Some("/home/ann")));
    assert_eq!(format!("{c:?}"), format!("{d:?}"));
}
