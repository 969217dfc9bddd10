//! The records that the library keeps of downloaded archives, installed mods
//! and the API data that belongs to them.
pub mod local_file;
pub mod local_file_cache;
pub mod file_data;
pub mod archive_files;
pub mod update;
pub mod modfile_metadata;
pub mod metadata_index;
pub mod keyed;
pub mod file_lists;
pub mod modinfo_map;
pub mod md5result_map;
pub mod cache;
pub mod indexed;
pub mod installed;
pub mod file_index;
pub mod file_list_cache;
pub mod file_details_cache;
