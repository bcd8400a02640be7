//! edotex: configuration, path and request logic of a LaTeX build tool
//! that drives the Tectonic engine with an embedded TeX tree.
pub mod config;
pub mod paths;
pub mod run;
pub mod server;
pub mod tex;
pub mod text;
pub mod textree;
