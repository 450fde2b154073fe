pub mod database;
pub mod database_laws;
pub mod domain;
pub mod ordering;
pub mod shared;
pub mod text;
pub mod integration;
pub mod infrastructure;
pub mod application;
pub mod presentation;
pub mod cli;
pub mod clipboard;
pub mod gui_model;
pub mod ipc;
pub mod bootstrap;
pub mod paths;
pub mod hotkey;
