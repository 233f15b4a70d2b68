//! Verified core of a BSP tiling window manager: layout tree, configuration
//! model and parsing, window rules, and per-window geometry.
pub mod text;
pub mod geometry;
pub mod command;
pub mod config;
pub mod rules;
pub mod keysym;
pub mod parser;
pub mod schema;
pub mod defaults;
pub mod window;
pub mod output;
pub mod seat;
pub mod scene;
pub mod layout;
pub mod tree;
pub mod tree_laws;
pub mod window_rules;
pub mod pointer;
pub mod reassign;
pub mod focus;
pub mod actions;
pub mod wm;
pub mod wm_laws;
pub mod commands;
pub mod scene_state;
pub mod sequences;
pub mod snapshot;
pub mod bindings;
pub mod input;
pub mod sequence_laws;
