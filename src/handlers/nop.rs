//! The discarding backend: every lookup misses, every upload is read and
//! dropped.

use vstd::prelude::*;

use crate::error::Error;
use crate::file_type::UnityFileType;
use crate::handlers::staging::unexpected_eof;
use crate::hex::{UnityFileGuid, UnityFileHash};

verus! {

#[derive(Debug, Default, Clone, Copy)]
pub struct NopHandler;

impl NopHandler {
    pub fn new() -> (r: Self) {
        NopHandler
    }

    /// Always a miss.
    pub fn get(&self, t: UnityFileType, guid: &UnityFileGuid, hash: &UnityFileHash) -> (r: Result<
        Option<u64>,
        Error,
    >)
        ensures
            r == Ok::<Option<u64>, Error>(None),
    {
        Ok(None)
    }

    pub fn start_transaction(&mut self, guid: UnityFileGuid, hash: UnityFileHash) -> (r: Result<
        (),
        Error,
    >)
        ensures
            r is Ok,
    {
        Ok(())
    }

    pub fn end_transaction(&mut self) -> (r: Result<(), Error>)
        ensures
            r is Ok,
    {
        Ok(())
    }

    pub fn cancel_transaction(&mut self) -> (r: Result<(), Error>)
        ensures
            r is Ok,
    {
        Ok(())
    }

    /// Accepts an upload of declared `size` of which `received` bytes were
    /// read and dropped; fails when the stream ended early.
    pub fn put(&mut self, t: UnityFileType, size: u64, received: u64) -> (r: Result<(), Error>)
        ensures
            r is Ok <==> received == size,
            received != size ==> r matches Err(Error::IoError(_)),
    {
        if received != size {
            return Err(Error::IoError(unexpected_eof()));
        }
        Ok(())
    }
}

} // verus!
