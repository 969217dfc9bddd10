//! Installing archives: the records of installed mod directories, the errors
//! of an installation, and where an archive entry is written.
pub mod install_error;
pub mod installed_mod;
pub mod extract_path;
pub mod installer;
