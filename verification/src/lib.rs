//! A terminal dashboard of pull requests.

pub mod caret;
pub mod cell_laws;
pub mod changes;
pub mod chrome;
pub mod cli;
pub mod clipboard;
pub mod commits;
pub mod dashboard;
pub mod demo;
pub mod fetch;
pub mod github;
pub mod list_laws;
pub mod merged;
pub mod model;
pub mod model_laws;
pub mod nav;
pub mod nav_laws;
pub mod order;
pub mod prs;
pub mod queue;
pub mod render;
pub mod required;
pub mod reviews;
pub mod run;
pub mod screen;
pub mod sections;
pub mod shipments;
pub mod status;
pub mod surface;
pub mod table;
pub mod table_laws;
pub mod term;
pub mod text;
pub mod view_laws;
pub mod watch;
