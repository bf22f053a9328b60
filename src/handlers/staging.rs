//! The decisions that every backend makes on an upload, before the staged
//! value is kept.

use vstd::prelude::*;

use crate::error::Error;
use crate::file_type::UnityFileType;
use crate::handlers::transaction::Transaction;

verus! {

/// Whether `size` exceeds the configured maximum; a maximum of zero means
/// no limit.
pub open spec fn too_large(max_file_size: usize, size: u64) -> bool {
    max_file_size != 0 && size > max_file_size
}

/// Relies on `std::io::Error::from(ErrorKind::UnexpectedEof)`: the error
/// for a stream that ended before the declared size.
#[verifier::external_body]
pub(crate) fn unexpected_eof() -> (r: std::io::Error)
{
    std::io::Error::from(std::io::ErrorKind::UnexpectedEof)
}

/// Refuses a declared size above a non-zero maximum.
pub fn check_size(max_file_size: usize, size: u64) -> (r: Result<(), Error>)
    ensures
        match r {
            Ok(()) => !too_large(max_file_size, size),
            Err(Error::FileTooLarge { max_size, size: s }) => too_large(max_file_size, size)
                && max_size == max_file_size && s == size as usize,
            Err(_) => false,
        },
{
    if max_file_size != 0 {
        if size > max_file_size as u64 {
            return Err(Error::FileTooLarge { max_size: max_file_size, size: size as usize });
        }
    }
    Ok(())
}

/// Decides whether an upload of declared `size` may begin: a transaction
/// must be open, then the size must be within a non-zero maximum.
pub fn check_put<T>(transaction: &Option<Transaction<T>>, max_file_size: usize, size: u64) -> (r:
    Result<(), Error>)
    ensures
        transaction.is_none() ==> (r matches Err(Error::NotInTransaction)),
        transaction.is_some() && too_large(max_file_size, size) ==> match r {
            Err(Error::FileTooLarge { max_size, size: s }) => max_size == max_file_size && s
                == size as usize,
            _ => false,
        },
        r is Ok <==> transaction.is_some() && !too_large(max_file_size, size),
{
    match transaction {
        None => Err(Error::NotInTransaction),
        Some(_) => check_size(max_file_size, size),
    }
}

/// Stages `value`, of which `received` bytes arrived, for kind `t` in the
/// open transaction. Checked in this order: that a transaction is open,
/// the size limit, then the byte count. On any error the transaction is
/// left as it was.
pub fn stage<T>(
    transaction: &mut Option<Transaction<T>>,
    max_file_size: usize,
    t: UnityFileType,
    size: u64,
    value: T,
    received: u64,
) -> (r: Result<(), Error>)
    requires
        match *old(transaction) {
            Some(tr) => tr.wf(),
            None => true,
        },
    ensures
        old(transaction).is_none() ==> (r matches Err(Error::NotInTransaction)),
        old(transaction).is_some() && too_large(max_file_size, size) ==> match r {
            Err(Error::FileTooLarge { max_size, size: s }) => max_size == max_file_size && s
                == size as usize,
            _ => false,
        },
        old(transaction).is_some() && !too_large(max_file_size, size) && received != size ==> (r
            matches Err(Error::IoError(_))),
        r is Err ==> *final(transaction) == *old(transaction),
        r is Ok <==> (old(transaction).is_some() && !too_large(max_file_size, size) && received
            == size),
        r is Ok ==> match (*old(transaction), *final(transaction)) {
            (Some(a), Some(b)) => {
                &&& b.wf()
                &&& b.guid == a.guid
                &&& b.hash == a.hash
                &&& b.files.slot(t) == Some(value)
                &&& forall|u: UnityFileType|
                    u != t ==> #[trigger] b.files.slot(u) == a.files.slot(u)
            },
            _ => false,
        },
{
    match transaction {
        None => Err(Error::NotInTransaction),
        Some(tr) => {
            match check_size(max_file_size, size) {
                Ok(()) => {},
                Err(e) => {
                    return Err(e);
                },
            }
            if received != size {
                return Err(Error::IoError(unexpected_eof()));
            }
            tr.files.set(t, value);
            Ok(())
        },
    }
}

} // verus!
