//! A mod manager library for Nexus Mods: download bookkeeping, update
//! checking, configuration and the on-disk layout of its metadata.
pub mod text;
pub mod path;
pub mod api;
pub mod cache;
pub mod config;
pub mod sys_dirs;
pub mod db;
pub mod local;
pub mod extract;
pub mod install;
pub mod events;
pub mod logger;
pub mod log;
pub mod prelude;
pub mod cli;
pub mod cmdline;
pub mod download;
pub mod messages;
pub mod request;
pub mod lookup;
pub mod nxm_socket;
