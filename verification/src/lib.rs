//! Keeps a tree of generated test stubs in step with a tree of source files.
//!
//! Every source file that passes the name filter gets one stub at the same
//! relative place under the tests root. A stub that is already there is left
//! alone. The library decides; the caller lists directories and writes files.
//!
//! - `config_file`: the settings, the directories they name, and the record
//!   that a stub is rendered from.
//! - `tree_path`, `text`: paths as lists of names, and names as characters.
//! - `name_filter`: which entries of a directory take part.
//! - `tree_walker`, `whole_walk`: the walk through the sources tree, step by
//!   step and as a whole.
//! - `path_mapper`: from a source file to the place of its stub.
//! - `generator`, `tests_tree`: the stub of one file, and the tests tree
//!   over a run.
//! - `template_engine`, `json_data`, `clock`: the calls into `handlebars`,
//!   `serde_json` and `chrono`, with what is taken on trust of them.
//! - `partials`: the templates that are not handed to the engine.
//! - `failure`: the ways in which a run can fail.

pub mod text;
pub mod tree_path;
pub mod config_file;
pub mod name_filter;
pub mod failure;
pub mod json_data;
pub mod partials;
pub mod template_engine;
pub mod clock;
pub mod path_mapper;
pub mod generator;
pub mod tests_tree;
pub mod tree_walker;
pub mod whole_walk;
