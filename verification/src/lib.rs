use vstd::prelude::*;

pub mod text;
pub mod path_tree;
pub mod model;
pub mod nav;
pub mod inputs;
pub mod loader;
pub mod yaml;
pub mod schema;
pub mod swagger;
pub mod api3;
pub mod openapi31;
pub mod openapi30;
pub mod documents;
pub mod styles;
pub mod detail;
pub mod session;
pub mod events;
pub mod lines;
pub mod schema_view;
pub mod detail_page;
pub mod detail_frame;
pub mod panels;

verus! {
} // verus!
