# edotex

edotex compiles LaTeX documents with the Tectonic engine and an embedded TeX
tree. This crate holds its logic as a library verified with Verus; `app/`
holds the program around it (command-line parsing, files, the engine and the
HTTP server).

- `src/config.rs`: defaults, the JSON overlay and the command-line overlay;
  the precedence of the three is proved (`lemma_precedence`).
- `src/tex.rs`: the TeX environment's paths, the injected input, the search
  path list and the captured status log.
- `src/server.rs`: which static files are served and how requests are
  answered; served paths never leave the served directory.
- `src/paths.rs`: paths as `std::path` reads them on Unix: joining,
  components, setting an extension.
- `src/run.rs`, `src/textree.rs`: the decisions of the program's modes.
- `src/text.rs`: decimal rendering and ASCII case folding.
