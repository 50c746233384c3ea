//! The path of a Unix socket address.

use vstd::prelude::*;

verus! {

/// The address family of local (Unix) sockets.
pub const AF_LOCAL: u16 = 1;

/// Error of reading the path of an address.
#[derive(Debug, Clone, Copy, PartialEq, Eq, Structural)]
pub enum AddressError {
    /// The address is of another family than the local one.
    NotLocal {
        /// The family of the address.
        family: u16,
    },
}

/// A path without the null byte at its end, if it has one: at most one byte
/// is left out, and the bytes before it stay. Some platforms count a
/// trailing null byte into the length of a path.
pub open spec fn without_trailing_null(path: Seq<u8>) -> Seq<u8> {
    if path.len() > 0 && path.last() == 0 {
        path.drop_last()
    } else {
        path
    }
}

/// Get the Unix path of a socket address, given the family of the address
/// and the bytes of its path field, as long as the address says.
///
/// An error is returned if the address is not a Unix address.
pub fn address_path(family: u16, path: &[u8]) -> (r: Result<&[u8], AddressError>)
    ensures
        family != AF_LOCAL ==> r == Err::<&[u8], AddressError>(
            AddressError::NotLocal { family },
        ),
        family == AF_LOCAL ==> r is Ok && r->Ok_0@ == without_trailing_null(path@),
{
    if family != AF_LOCAL {
        Err(AddressError::NotLocal { family })
    } else {
        let len: usize = path.len();
        if len > 0 && path[len - 1] == 0 {
            Ok(vstd::slice::slice_subrange(path, 0, len - 1))
        } else {
            Ok(path)
        }
    }
}

} // verus!
