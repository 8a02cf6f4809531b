//! Workspace management for Dart and Flutter monorepos: configuration,
//! package selection, script expansion, versioning and command assembly.
pub mod text;
pub mod script;
pub mod config;
pub mod flutter_build;
pub mod package;
pub mod workspace;
pub mod commands;
pub mod watcher;
pub mod tui;
pub mod version;
pub mod events;
pub mod health;
pub mod app;
pub mod release;
pub mod runner;
pub mod pubspec;
pub mod order;
pub mod overrides;
pub mod enforce;
pub mod expand;
pub mod run_plan;
pub mod dispatch;
pub mod commit_log;
pub mod init;
pub mod views;
pub mod theme;
