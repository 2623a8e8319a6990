//! Privilege check made once at startup.

use vstd::prelude::*;
use crate::platform::Platform;

verus! {

/// User id of the superuser.
pub const ROOT_UID: u32 = 0;

/// Whether a process with the user id `uid` counts as run by an
/// administrator. On Windows every process does; on Unix only the
/// superuser's.
pub open spec fn is_admin(platform: Platform, uid: u32) -> bool {
    platform == Platform::Windows || uid == ROOT_UID
}

/// Tells whether the service runs as administrator, from the user id that
/// the operating system reported for this process. Clients may refuse to
/// connect to a service that does not.
pub fn running_as_admin(platform: Platform, uid: u32) -> (admin: bool)
    ensures
        admin == is_admin(platform, uid),
{
    match platform {
        Platform::Windows => true,
        Platform::Unix => uid == ROOT_UID,
    }
}

} // verus!
