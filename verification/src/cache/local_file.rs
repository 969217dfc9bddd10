//! A downloaded file together with its update status. The status is kept as a
//! variant number and a time, and read back as an `UpdateStatus`.
use crate::api::FileInfo;
use vstd::prelude::*;

verus! {

pub const UP_TO_DATE: u8 = 0;
pub const HAS_NEW_FILE: u8 = 1;
pub const IGNORED_UNTIL: u8 = 3;
pub const OUT_OF_DATE: u8 = 2;

/// Whether a mod's files have updates, with a time.
#[derive(PartialEq, Eq, Structural, Debug)]
pub enum UpdateStatus {
    /// The time of the user's newest file.
    UpToDate(u64),
    /// The time of the user's newest file.
    HasNewFile(u64),
    /// The time of the user's newest file.
    OutOfDate(u64),
    /// The time of the latest file in the update list.
    IgnoredUntil(u64),
}

impl Clone for UpdateStatus {
    fn clone(&self) -> (r: Self)
        ensures
            r == *self,
    {
        match self {
            UpdateStatus::UpToDate(t) => UpdateStatus::UpToDate(*t),
            UpdateStatus::HasNewFile(t) => UpdateStatus::HasNewFile(*t),
            UpdateStatus::OutOfDate(t) => UpdateStatus::OutOfDate(*t),
            UpdateStatus::IgnoredUntil(t) => UpdateStatus::IgnoredUntil(*t),
        }
    }
}

impl UpdateStatus {
    /// The time that every variant carries.
    pub open spec fn spec_time(self) -> u64 {
        match self {
            UpdateStatus::UpToDate(t) => t,
            UpdateStatus::HasNewFile(t) => t,
            UpdateStatus::OutOfDate(t) => t,
            UpdateStatus::IgnoredUntil(t) => t,
        }
    }

    /// The time that the status carries.
    pub fn time(&self) -> (t: u64)
        ensures
            t == self.spec_time(),
    {
        match self {
            UpdateStatus::UpToDate(t) => *t,
            UpdateStatus::HasNewFile(t) => *t,
            UpdateStatus::OutOfDate(t) => *t,
            UpdateStatus::IgnoredUntil(t) => *t,
        }
    }
}

/// The variant number under which a status is stored.
pub open spec fn status_code(s: UpdateStatus) -> u8 {
    match s {
        UpdateStatus::UpToDate(_) => UP_TO_DATE,
        UpdateStatus::HasNewFile(_) => HAS_NEW_FILE,
        UpdateStatus::IgnoredUntil(_) => IGNORED_UNTIL,
        UpdateStatus::OutOfDate(_) => OUT_OF_DATE,
    }
}

/// The status that a stored variant number and time stand for.
pub open spec fn status_from_code(code: u8, time: u64) -> UpdateStatus {
    if code == UP_TO_DATE {
        UpdateStatus::UpToDate(time)
    } else if code == HAS_NEW_FILE {
        UpdateStatus::HasNewFile(time)
    } else if code == IGNORED_UNTIL {
        UpdateStatus::IgnoredUntil(time)
    } else {
        UpdateStatus::OutOfDate(time)
    }
}

/// An update status stored as a variant number and a time.
pub struct StatusWrapper {
    status: u8,
    time: u64,
}

impl StatusWrapper {
    /// Only the four variant numbers occur.
    #[verifier::type_invariant]
    spec fn valid(self) -> bool {
        self.status <= 3
    }

    /// The status that the wrapper holds.
    pub closed spec fn view_status(self) -> UpdateStatus {
        status_from_code(self.status, self.time)
    }

    /// Stores `status`.
    pub fn new(status: UpdateStatus) -> (r: Self)
        ensures
            r.view_status() == status,
    {
        let (status, time) = Self::values_from_enum(status);
        StatusWrapper { status, time }
    }

    /// The status that the wrapper holds.
    pub fn to_enum(&self) -> (r: UpdateStatus)
        ensures
            r == self.view_status(),
    {
        proof {
            use_type_invariant(self);
        }
        let time = self.time;
        match self.status {
            UP_TO_DATE => UpdateStatus::UpToDate(time),
            HAS_NEW_FILE => UpdateStatus::HasNewFile(time),
            IGNORED_UNTIL => UpdateStatus::IgnoredUntil(time),
            _ => UpdateStatus::OutOfDate(time),
        }
    }

    /// The variant number and time under which `status` is stored.
    pub fn values_from_enum(status: UpdateStatus) -> (r: (u8, u64))
        ensures
            r.0 == status_code(status),
            r.1 == status.spec_time(),
            r.0 <= 3,
            status_from_code(r.0, r.1) == status,
    {
        match status {
            UpdateStatus::UpToDate(t) => (UP_TO_DATE, t),
            UpdateStatus::HasNewFile(t) => (HAS_NEW_FILE, t),
            UpdateStatus::IgnoredUntil(t) => (IGNORED_UNTIL, t),
            UpdateStatus::OutOfDate(t) => (OUT_OF_DATE, t),
        }
    }

    /// Replaces the stored status.
    pub fn set(&mut self, status: UpdateStatus)
        ensures
            final(self).view_status() == status,
    {
        let (variant, time) = Self::values_from_enum(status);
        self.status = variant;
        self.time = time;
    }
}

impl Clone for StatusWrapper {
    fn clone(&self) -> (r: Self)
        ensures
            r == *self,
    {
        proof {
            use_type_invariant(self);
        }
        StatusWrapper { status: self.status, time: self.time }
    }
}

/// A downloaded file: its game, name, mod and file id, and update status.
pub struct LocalFile {
    pub game: String,
    pub file_name: String,
    pub mod_id: u32,
    pub file_id: u64,
    pub update_status: StatusWrapper,
}

impl LocalFile {
    /// The status recorded for the file.
    pub closed spec fn view_status(self) -> UpdateStatus {
        self.update_status.view_status()
    }

    /// The record of the file described by `fi`, with `update_status`.
    pub fn new(fi: FileInfo, update_status: UpdateStatus) -> (r: Self)
        ensures
            r.game == fi.game,
            r.file_name == fi.file_name,
            r.mod_id == fi.mod_id,
            r.file_id == fi.file_id,
            r.view_status() == update_status,
    {
        LocalFile {
            game: fi.game,
            file_name: fi.file_name,
            mod_id: fi.mod_id,
            file_id: fi.file_id,
            update_status: StatusWrapper::new(update_status),
        }
    }

    /// The recorded update status.
    pub fn update_status(&self) -> (r: UpdateStatus)
        ensures
            r == self.view_status(),
    {
        self.update_status.to_enum()
    }

    /// Records a new update status; nothing else changes.
    pub fn set_update_status(&mut self, update_status: UpdateStatus)
        ensures
            final(self).view_status() == update_status,
            final(self).game == old(self).game,
            final(self).file_name == old(self).file_name,
            final(self).mod_id == old(self).mod_id,
            final(self).file_id == old(self).file_id,
    {
        self.update_status.set(update_status);
    }
}

impl Clone for LocalFile {
    fn clone(&self) -> (r: Self)
        ensures
            r == *self,
    {
        LocalFile {
            game: self.game.clone(),
            file_name: self.file_name.clone(),
            mod_id: self.mod_id,
            file_id: self.file_id,
            update_status: self.update_status.clone(),
        }
    }
}

/// Storing a status and reading it back gives the same status.
pub proof fn lemma_status_code_roundtrip(s: UpdateStatus)
    ensures
        status_code(s) <= 3,
        status_from_code(status_code(s), s.spec_time()) == s,
{
}

/// Every stored variant number reads back to a status with the same number and time.
pub proof fn lemma_status_decode_roundtrip(code: u8, time: u64)
    requires
        code <= 3,
    ensures
        status_code(status_from_code(code, time)) == code,
        status_from_code(code, time).spec_time() == time,
{
}

} // verus!
