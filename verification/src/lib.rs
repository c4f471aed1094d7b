//! Object capabilities and embedded windows across a plugin boundary.

pub mod capabilities;
pub mod clipboard;
pub mod demo;
pub mod dispatcher;
pub mod display;
pub mod display_list;
pub mod frame;
pub mod guest;
pub mod guest_platform;
pub mod guest_window;
pub mod host;
pub mod host_surface;
pub mod images;
pub mod input_query;
pub mod interface_laws;
pub mod interface_plan;
pub mod interfaces;
pub mod js;
pub mod limits;
pub mod membrane;
pub mod model;
pub mod name_table;
pub mod naming;
pub mod numerals;
pub mod platform_types;
pub mod registry;
pub mod registry_laws;
pub mod registry_runs;
pub mod replay;
pub mod scene;
pub mod schema;
pub mod sequences;
pub mod shared_guest;
pub mod shared_host;
pub mod shared_runs;
pub mod surface;
pub mod table;
pub mod text;
pub mod text_imports;
pub mod trial_interfaces;
pub mod ui_tree;
pub mod worker;
