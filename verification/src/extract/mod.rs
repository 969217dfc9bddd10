//! Reading archives with libarchive: its status codes and errors.
pub mod libarchive;
