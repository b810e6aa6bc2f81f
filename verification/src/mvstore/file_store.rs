use vstd::prelude::*;
use crate::api::error_code;
use crate::message::db_error::{DbError, is_error, one_param};
use crate::util::chars::{str_concat, to_owned_string};

verus! {

/// How the file of a store is to be opened: for reading, and where it is not
/// read-only also for creating, writing and appending; with a shared lock
/// where it is read-only, an exclusive one otherwise.
pub enum OpenAction {
    /// The file is open already: nothing to do.
    AlreadyOpen,
    /// Open the file, read-only or not.
    Open { read_only: bool },
}

/// What opening and locking the file gave.
pub enum OpenOutcome {
    /// The file could not be opened.
    OpenFailed,
    /// The file was opened but could not be locked, for the reason given.
    LockFailed(String),
    /// The file was opened and locked; it holds `size` bytes.
    Opened { size: i64 },
}

/// The bookkeeping of the file of a store: its name, whether it is open,
/// locked and read-only, its size, and how much was read and written.
pub struct FileStore {
    pub read_count: u64,
    pub read_byte_count: u64,
    pub write_count: u64,
    pub write_byte_count: u64,
    pub file_name: String,
    pub read_only: bool,
    pub file_size: i64,
    pub open: bool,
    pub locked: bool,
}

impl FileStore {
    /// A store file that is not open.
    pub fn new() -> (f: FileStore)
        ensures
            !f.open,
            !f.locked,
            !f.read_only,
            f.file_size == 0,
            f.file_name@ == Seq::<char>::empty(),
            f.read_count == 0 && f.read_byte_count == 0 && f.write_count == 0 && f.write_byte_count == 0,
    {
        FileStore {
            read_count: 0,
            read_byte_count: 0,
            write_count: 0,
            write_byte_count: 0,
            file_name: String::new(),
            read_only: false,
            file_size: 0,
            open: false,
            locked: false,
        }
    }

    /// Decides how to open the file `file_name`. A file that is open already
    /// is left as it is. Otherwise its name is kept; a missing parent directory
    /// is an internal error; a file that exists and may not be written is
    /// opened read-only, as is any file where `read_only` is asked for.
    pub fn open(&mut self, file_name: &str, read_only: bool, parent_exists: bool, exists: bool, writable: bool) -> (r:
        Result<OpenAction, DbError>)
        ensures
            old(self).open ==> (r matches Ok(OpenAction::AlreadyOpen) && *final(self) == *old(self)),
            !old(self).open ==> final(self).file_name@ == file_name@ && final(self).open == old(self).open
                && final(self).locked == old(self).locked && final(self).file_size == old(self).file_size,
            !old(self).open && !parent_exists ==> (r matches Err(e) && is_error(
                e,
                error_code::GENERAL_ERROR_1,
                seq!["parent dir not exist"@],
            )),
            !old(self).open && parent_exists ==> (r matches Ok(OpenAction::Open { read_only: ro }) && ro == (
            read_only || (exists && !writable)) && final(self).read_only == ro),
    {
        if self.open {
            return Ok(OpenAction::AlreadyOpen);
        }
        self.file_name = to_owned_string(file_name);
        if !parent_exists {
            return Err(DbError::get_internal_error("parent dir not exist"));
        }
        let ro = read_only || (exists && !writable);
        self.read_only = ro;
        Ok(OpenAction::Open { read_only: ro })
    }

    /// Takes what opening and locking the file gave. Where it failed the store
    /// is closed and the failure is an internal error; otherwise the store is
    /// open and locked, with the size of the file.
    pub fn opened(&mut self, outcome: OpenOutcome) -> (r: Result<(), DbError>)
        ensures
            final(self).file_name == old(self).file_name,
            final(self).read_only == old(self).read_only,
            outcome is OpenFailed ==> !final(self).open && !final(self).locked && (r matches Err(e) && is_error(
                e,
                error_code::GENERAL_ERROR_1,
                seq!["ERROR_READING_FAILED,Could not open file"@],
            )),
            outcome matches OpenOutcome::LockFailed(cause) ==> !final(self).open && !final(self).locked && (r matches Err(
                e,
            ) && is_error(e, error_code::GENERAL_ERROR_1, seq!["try lock file failed,cause: "@ + cause@])),
            outcome matches OpenOutcome::Opened { size } ==> r is Ok && final(self).open && final(self).locked
                && final(self).file_size == size,
    {
        match outcome {
            OpenOutcome::OpenFailed => {
                self.close();
                Err(DbError::get_internal_error("ERROR_READING_FAILED,Could not open file"))
            },
            OpenOutcome::LockFailed(cause) => {
                self.close();
                let message = str_concat("try lock file failed,cause: ", cause.as_str());
                Err(DbError::get_internal_error(message.as_str()))
            },
            OpenOutcome::Opened { size } => {
                self.open = true;
                self.locked = true;
                self.file_size = size;
                Ok(())
            },
        }
    }

    /// Closes the store file: its lock is released and it is no longer open.
    pub fn close(&mut self)
        ensures
            !final(self).open,
            !final(self).locked,
            final(self).file_name == old(self).file_name,
            final(self).read_only == old(self).read_only,
            final(self).file_size == old(self).file_size,
    {
        self.locked = false;
        self.open = false;
    }

    /// The size of the file, in bytes.
    pub fn size(&self) -> (r: i64)
        ensures
            r == self.file_size,
    {
        self.file_size
    }

    /// How long, in milliseconds, unused chunks are kept by default.
    pub fn get_default_retention_time(&self) -> (r: i32)
        ensures
            r == 45000,
    {
        45000
    }
}

} // verus!
