//! Collections of HTTP requests, `{{var}}` interpolation, request building and
//! the interactive editor's state machine, with their contracts.

pub mod text;
pub mod strmap;
pub mod outside;
pub mod error;
pub mod interpolate;
pub mod model;
pub mod builder;
pub mod keys;
pub mod editor;
pub mod http;
pub mod config;
pub mod app;
pub mod input;
pub mod paths;
pub mod history;
pub mod ui;
pub mod view;
pub mod screen;
pub mod session;
pub mod highlight;
pub mod search;
pub mod command;
pub mod calendar;
pub mod export;
pub mod headless;
pub mod laws;
