//! A downloaded file named by its path.
pub mod local_file;
