//! hermes_tail: the state and decision logic of a dual-pane file manager.
#![allow(unused_imports)]

pub mod ai;
pub mod app;
pub mod commands;
pub mod config;
pub mod dialog;
pub mod events;
pub mod fs;
pub mod laws;
pub mod ops;
pub mod order;
pub mod panel;
pub mod report;
pub mod sync;
pub mod tasks;
pub mod path;
pub mod text;
pub mod theme;
pub mod view;
pub mod viewer;
pub mod wildcard;
