//! The decision logic of the Tusk PHP extension for the Zed editor.
//!
//! * `resolver` decides how the language server binary is found: in what order the places
//!   are tried, and that a downloaded binary is used only with the checksum that the pin
//!   file states. `pin`, `release` and `checksum` say what is pinned.
//! * `server` makes the command that starts the language server.
//! * `slash` decides the slash commands. `php` reads what a source file declares, `psr4`
//!   and `json` read the namespaces of a project from its `composer.json`, and `path`
//!   resolves the paths of both.
//!
//! Nothing here touches the host: what comes of an action on it is handed in. The modules
//! whose names end in `_laws` hold what is true of all inputs together.

pub mod checksum;
pub mod extension;
pub mod json;
pub mod path;
pub mod path_laws;
pub mod php;
pub mod php_laws;
pub mod pin;
pub mod pin_laws;
pub mod psr4;
pub mod psr4_laws;
pub mod release;
pub mod release_laws;
pub mod resolver;
pub mod resolver_laws;
pub mod server;
pub mod slash;
pub mod slash_laws;
pub mod text;
pub mod text_laws;
