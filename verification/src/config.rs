//! Where the backend listens, what it is asked for, and how long a call may
//! wait for it.

use vstd::prelude::*;

verus! {

/// The socket that serves the password and group databases.
pub const SOCKET_PATH: &'static str = "/var/lib/alexandria/nss.sock";

/// The socket that serves the shadow database; only the privileged account
/// may connect to it.
pub const SOCKET_PATH_PRIV: &'static str = "/var/lib/alexandria/nss_priv.sock";

/// The path of the password database.
pub const PASSWD_URL: &'static str = "/passwd";

/// The path of the group database.
pub const GROUP_URL: &'static str = "/group";

/// The path of the shadow database.
pub const SHADOW_URL: &'static str = "/shadow";

/// How long reading the backend's answer may take, in milliseconds.
pub const HTTP_READ_TIMEOUT_MS: u64 = 100;

/// How long sending a request to the backend may take, in milliseconds.
pub const HTTP_WRITE_TIMEOUT_MS: u64 = 100;

} // verus!
