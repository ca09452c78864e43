//! The byte-level part of the Unix-domain listener setup.
//!
//! The syscalls — socket creation, the permission calls around bind, the
//! listen — live in the application; what the library states is the layout
//! of the socket address they are given: a kernel `sockaddr_un` path buffer
//! is a fixed 108 bytes, holds the path at its start, and keeps at least
//! one trailing zero byte, so paths longer than 107 bytes are refused.

use vstd::prelude::*;

verus! {

/// The size of the kernel's `sockaddr_un` path buffer.
pub const SUN_PATH_LEN: usize = 108;

/// What to do about a file already at the socket path before binding.
#[derive(Clone, Copy, PartialEq, Eq, Structural, Debug)]
pub enum StaleSocketAction {
    /// A stale socket from an earlier run: remove it and bind.
    Remove,
    /// Something that is not a socket occupies the path: an operator error,
    /// surfaced instead of deleting the file.
    Refuse,
    /// Nothing is at the path: bind straight away.
    Ignore,
}

/// Decides what to do with a pre-existing file at the bind path, from what
/// a stat of the path showed.  Only a socket is ever removed; any other
/// file at the path is refused with an error, since deleting it would
/// destroy operator data.
pub fn stale_socket_action(path_exists: bool, is_socket: bool) -> (r: StaleSocketAction)
    ensures
        path_exists && is_socket ==> r is Remove,
        path_exists && !is_socket ==> r is Refuse,
        !path_exists ==> r is Ignore,
{
    if !path_exists {
        StaleSocketAction::Ignore
    } else if is_socket {
        StaleSocketAction::Remove
    } else {
        StaleSocketAction::Refuse
    }
}

/// Lays a socket path out as the kernel's fixed-size path buffer: the path
/// bytes first, zero bytes after, and always a zero byte at the end.  A
/// path that would fill the buffer without room for its terminating zero is
/// refused.
pub fn sun_path_bytes(path: &[u8]) -> (r: Result<Vec<u8>, ()>)
    ensures
        path@.len() < SUN_PATH_LEN ==> {
            &&& r matches Ok(v)
            &&& v@.len() == SUN_PATH_LEN
            &&& v@.subrange(0, path@.len() as int) == path@
            &&& forall|k: int| path@.len() <= k < SUN_PATH_LEN ==> v@[k] == 0
        },
        path@.len() >= SUN_PATH_LEN ==> r is Err,
{
    let n = path.len();
    if n >= SUN_PATH_LEN {
        return Err(());
    }
    let mut v: Vec<u8> = Vec::new();
    let mut i: usize = 0;
    while i < n
        invariant
            0 <= i <= n,
            n == path@.len(),
            v@.len() == i,
            forall|k: int| 0 <= k < i ==> v@[k] == #[trigger] path@[k],
        decreases n - i,
    {
        v.push(path[i]);
        i = i + 1;
    }
    while i < SUN_PATH_LEN
        invariant
            n <= i <= SUN_PATH_LEN,
            n == path@.len(),
            v@.len() == i,
            forall|k: int| 0 <= k < n ==> v@[k] == #[trigger] path@[k],
            forall|k: int| n <= k < i ==> v@[k] == 0,
        decreases SUN_PATH_LEN - i,
    {
        v.push(0);
        i = i + 1;
    }
    proof {
        assert(v@.subrange(0, path@.len() as int) =~= path@);
    }
    Ok(v)
}

} // verus!
