pub mod text;
pub mod vecs;
pub mod protocol;
pub mod config;
pub mod app;
pub mod theme;
pub mod wire;
pub mod daemon;
pub mod scan;
pub mod telemetry;
pub mod ansi;
pub mod listener;
pub mod ids;
pub mod client;
pub mod logdb;
pub mod laws;
pub mod view;
