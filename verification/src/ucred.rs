//! Credentials of the process at the other end of a connection.

use crate::io::OsError;
use vstd::prelude::*;

verus! {

/// Credentials of a process
#[derive(Copy, Clone, Eq, PartialEq, Hash, Debug)]
pub struct UCred {
    /// PID (process ID) of the process
    pid: Option<i32>,
    /// UID (user ID) of the process
    uid: u32,
    /// GID (group ID) of the process
    gid: u32,
}

impl UCred {
    /// The process identifier, where the platform tells it.
    pub closed spec fn peer_pid(&self) -> Option<i32> {
        self.pid
    }

    /// The user identifier.
    pub closed spec fn peer_uid(&self) -> u32 {
        self.uid
    }

    /// The group identifier.
    pub closed spec fn peer_gid(&self) -> u32 {
        self.gid
    }

    /// The credentials with the given identifiers. `pid` is `None` on a
    /// platform that cannot tell the process of a peer.
    pub fn new(pid: Option<i32>, uid: u32, gid: u32) -> (r: Self)
        ensures
            r.peer_pid() == pid,
            r.peer_uid() == uid,
            r.peer_gid() == gid,
    {
        UCred { pid, uid, gid }
    }

    /// Get the credentials of a connected peer for a Unix socket, from what
    /// the query for them returned: see [`get_peer_cred`].
    pub fn from_socket_peer(ret: i32, pid: i32, uid: u32, gid: u32, os_error: i32) -> (r: Result<
        Self,
        OsError,
    >)
        ensures
            ret == 0 ==> r is Ok && r->Ok_0.peer_pid() == Some(pid) && r->Ok_0.peer_uid() == uid
                && r->Ok_0.peer_gid() == gid,
            ret != 0 ==> r == Err::<Self, OsError>(OsError { code: os_error }),
    {
        get_peer_cred(ret, pid, uid, gid, os_error)
    }

    /// Gets UID (user ID) of the process.
    pub fn uid(&self) -> (r: u32)
        ensures
            r == self.peer_uid(),
    {
        self.uid
    }

    /// Gets GID (group ID) of the process.
    pub fn gid(&self) -> (r: u32)
        ensures
            r == self.peer_gid(),
    {
        self.gid
    }

    /// Gets PID (process ID) of the process.
    ///
    /// This is `None` on a platform that cannot tell the process of a peer.
    pub fn pid(&self) -> (r: Option<i32>)
        ensures
            r == self.peer_pid(),
    {
        self.pid
    }
}

/// Makes the credentials of a peer from what the query of the socket option
/// for them returned: `ret` is the value that the call returned, `pid`, `uid`
/// and `gid` are what it filled in, and `os_error` is the error number that
/// it left. The credentials are there if and only if the call returned zero.
pub fn get_peer_cred(ret: i32, pid: i32, uid: u32, gid: u32, os_error: i32) -> (r: Result<
    UCred,
    OsError,
>)
    ensures
        ret == 0 ==> r is Ok && r->Ok_0.peer_pid() == Some(pid) && r->Ok_0.peer_uid() == uid
            && r->Ok_0.peer_gid() == gid,
        ret != 0 ==> r == Err::<UCred, OsError>(OsError { code: os_error }),
{
    if ret == 0 {
        Ok(UCred { uid, gid, pid: Some(pid) })
    } else {
        Err(OsError { code: os_error })
    }
}

/// Makes the credentials of a peer on a platform that tells the user and
/// the group of a peer but not its process: `ret` is the value that the
/// query returned, `uid` and `gid` are what it filled in, and `os_error` is
/// the error number that it left. The credentials are there if and only if
/// the call returned zero, and they hold no process identifier.
pub fn get_peer_eid(ret: i32, uid: u32, gid: u32, os_error: i32) -> (r: Result<UCred, OsError>)
    ensures
        ret == 0 ==> r is Ok && r->Ok_0.peer_pid() == None::<i32> && r->Ok_0.peer_uid() == uid
            && r->Ok_0.peer_gid() == gid,
        ret != 0 ==> r == Err::<UCred, OsError>(OsError { code: os_error }),
{
    if ret == 0 {
        Ok(UCred { uid, gid, pid: None })
    } else {
        Err(OsError { code: os_error })
    }
}

} // verus!
