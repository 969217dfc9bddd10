//! Where each kind of cached or local record is stored.
use super::Config;
use crate::api::DownloadInfo;
use crate::path::{path_join, spec_push};
use crate::text::{append_decimal, append_str, decimal};
use vstd::prelude::*;

verus! {

pub const DL_LINKS: &'static str = "download_links";
pub const FILE_LISTS: &'static str = "file_lists";
pub const MD5_RESULTS: &'static str = "md5_results";
pub const MOD_INFO: &'static str = "mod_info";

/// A record kept on disk, with what its location depends on.
pub enum DataPath<'a> {
    /// A download link: game, mod id, file id.
    DownloadLink(&'a Config, &'a str, u32, u64),
    /// A mod's file list: game, mod id.
    FileList(&'a Config, &'a str, u32),
    /// An md5 lookup result: game, file id.
    Md5Results(&'a Config, &'a str, u64),
    /// A mod's description: game, mod id.
    ModInfo(&'a Config, &'a str, u32),
    /// The update record of a game.
    Updated(&'a Config, &'a str),
    /// The metadata of an installed mod directory.
    ModDirMetadata(&'a Config, &'a String),
    /// The metadata of a downloaded archive.
    ArchiveMetadata(&'a Config, &'a String),
    /// The state of a download in progress.
    DownloadInfo(&'a Config, &'a DownloadInfo),
    /// The description of a game.
    GameInfo(&'a Config, &'a str),
    /// Where older versions kept a mod's file list: game, mod id.
    FileListCompat(&'a Config, &'a str, u32),
}

/// `name` followed by `.json`.
pub open spec fn json_name(name: Seq<char>) -> Seq<char> {
    name + ".json"@
}

/// The location of a record.
pub open spec fn spec_data_path(p: DataPath) -> Seq<char> {
    match p {
        DataPath::DownloadInfo(config, di) => spec_push(
            config.spec_download_dir(),
            di.file_info.file_name@ + ".part.json"@,
        ),
        DataPath::DownloadLink(config, game, mod_id, file_id) => spec_push(
            spec_push(spec_push(config.spec_metadata_for_profile(), game@), DL_LINKS@),
            json_name(decimal(mod_id as nat) + "-"@ + decimal(file_id as nat)),
        ),
        DataPath::FileList(config, game, mod_id) => spec_push(
            spec_push(spec_push(config.spec_metadata_for_profile(), game@), FILE_LISTS@),
            json_name(decimal(mod_id as nat)),
        ),
        DataPath::FileListCompat(config, game, mod_id) => spec_push(
            spec_push(spec_push(config.spec_data_dir(), game@), FILE_LISTS@),
            json_name(decimal(mod_id as nat)),
        ),
        DataPath::GameInfo(config, game) => spec_push(config.spec_metadata_dir(), json_name(game@)),
        DataPath::ModDirMetadata(config, dir_name) => spec_push(
            spec_push(config.spec_install_dir(), dir_name@),
            ".dmodman-meta.json"@,
        ),
        DataPath::ArchiveMetadata(config, file_name) => spec_push(
            config.spec_download_dir(),
            json_name(file_name@),
        ),
        DataPath::Md5Results(config, game, file_id) => spec_push(
            spec_push(spec_push(config.spec_metadata_dir(), game@), MD5_RESULTS@),
            json_name(decimal(file_id as nat)),
        ),
        DataPath::ModInfo(config, game, mod_id) => spec_push(
            spec_push(spec_push(config.spec_metadata_dir(), game@), MOD_INFO@),
            json_name(decimal(mod_id as nat)),
        ),
        DataPath::Updated(config, game) => spec_push(
            spec_push(config.spec_data_dir(), game@),
            "updated.json"@,
        ),
    }
}

/// The decimal rendering of `n` followed by `.json`.
fn numbered_json(n: u64) -> (r: String)
    ensures
        r@ == json_name(decimal(n as nat)),
{
    let mut s = String::new();
    append_decimal(&mut s, n);
    append_str(&mut s, ".json");
    assert(Seq::<char>::empty() + decimal(n as nat) =~= decimal(n as nat));
    s
}

/// `name` followed by `.json`.
fn named_json(name: &str) -> (r: String)
    ensures
        r@ == json_name(name@),
{
    let mut s = name.to_owned();
    append_str(&mut s, ".json");
    s
}

impl<'a> DataPath<'a> {
    /// The location of the record.
    pub fn path(&self) -> (r: String)
        ensures
            r@ == spec_data_path(*self),
    {
        match self {
            DataPath::DownloadInfo(config, di) => {
                let dir = config.download_dir();
                let mut name = di.file_info.file_name.clone();
                append_str(&mut name, ".part.json");
                path_join(dir.as_str(), name.as_str())
            },
            DataPath::DownloadLink(config, game, mod_id, file_id) => {
                let base = config.metadata_for_profile();
                let a = path_join(base.as_str(), game);
                let b = path_join(a.as_str(), DL_LINKS);
                let mut name = String::new();
                append_decimal(&mut name, *mod_id as u64);
                append_str(&mut name, "-");
                append_decimal(&mut name, *file_id);
                append_str(&mut name, ".json");
                assert(Seq::<char>::empty() + decimal(*mod_id as nat) =~= decimal(*mod_id as nat));
                path_join(b.as_str(), name.as_str())
            },
            DataPath::FileList(config, game, mod_id) => {
                let base = config.metadata_for_profile();
                let a = path_join(base.as_str(), game);
                let b = path_join(a.as_str(), FILE_LISTS);
                let name = numbered_json(*mod_id as u64);
                path_join(b.as_str(), name.as_str())
            },
            DataPath::FileListCompat(config, game, mod_id) => {
                let base = config.data_dir();
                let a = path_join(base.as_str(), game);
                let b = path_join(a.as_str(), FILE_LISTS);
                let name = numbered_json(*mod_id as u64);
                path_join(b.as_str(), name.as_str())
            },
            DataPath::GameInfo(config, game) => {
                let base = config.metadata_dir();
                let name = named_json(game);
                path_join(base.as_str(), name.as_str())
            },
            DataPath::ModDirMetadata(config, dir_name) => {
                let base = config.install_dir();
                let a = path_join(base.as_str(), dir_name.as_str());
                path_join(a.as_str(), ".dmodman-meta.json")
            },
            DataPath::ArchiveMetadata(config, file_name) => {
                let base = config.download_dir();
                let name = named_json(file_name.as_str());
                path_join(base.as_str(), name.as_str())
            },
            DataPath::Md5Results(config, game, file_id) => {
                let base = config.metadata_dir();
                let a = path_join(base.as_str(), game);
                let b = path_join(a.as_str(), MD5_RESULTS);
                let name = numbered_json(*file_id);
                path_join(b.as_str(), name.as_str())
            },
            DataPath::ModInfo(config, game, mod_id) => {
                let base = config.metadata_dir();
                let a = path_join(base.as_str(), game);
                let b = path_join(a.as_str(), MOD_INFO);
                let name = numbered_json(*mod_id as u64);
                path_join(b.as_str(), name.as_str())
            },
            DataPath::Updated(config, game) => {
                let base = config.data_dir();
                let a = path_join(base.as_str(), game);
                path_join(a.as_str(), "updated.json")
            },
        }
    }
}

} // verus!
