//! The per-game layout of the earlier cache: where a game's cached API
//! records and downloads are kept.
pub mod local_file;
pub mod path_type;
pub mod update;
pub mod file_details_cache;
pub mod cache;
