//! A command-line client for a REST API whose commands come from a command
//! tree: the tree's model, the commands made from it, the requests built from
//! an invocation and the rendering of responses.

pub mod body;
pub mod cli;
pub mod config;
pub mod introspect;
pub mod json;
pub mod plan;
pub mod request;
pub mod response;
pub mod schema;
pub mod text;
