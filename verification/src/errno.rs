//! The error numbers the lookup dispatcher reads beside a status, taken from
//! the host's C library.

use vstd::prelude::*;

verus! {

/// "No such entry", as Linux numbers it.
pub open spec fn spec_enoent() -> i32 {
    2
}

/// "Resource temporarily unavailable", as Linux numbers it.
pub open spec fn spec_eagain() -> i32 {
    11
}

/// "Out of memory", as Linux numbers it.
pub open spec fn spec_enomem() -> i32 {
    12
}

/// "Result out of range", as Linux numbers it: the caller's buffer is too small.
pub open spec fn spec_erange() -> i32 {
    34
}

/// Reads `libc::ENOENT`. Trusted: on Linux the `libc` crate defines it as 2.
#[verifier::external_body]
pub(crate) fn enoent() -> (code: i32)
    ensures
        code == spec_enoent(),
{
    libc::ENOENT
}

/// Reads `libc::EAGAIN`. Trusted: on Linux the `libc` crate defines it as 11.
#[verifier::external_body]
pub(crate) fn eagain() -> (code: i32)
    ensures
        code == spec_eagain(),
{
    libc::EAGAIN
}

/// Reads `libc::ENOMEM`. Trusted: on Linux the `libc` crate defines it as 12.
#[verifier::external_body]
pub(crate) fn enomem() -> (code: i32)
    ensures
        code == spec_enomem(),
{
    libc::ENOMEM
}

/// Reads `libc::ERANGE`. Trusted: on Linux the `libc` crate defines it as 34.
#[verifier::external_body]
pub(crate) fn erange() -> (code: i32)
    ensures
        code == spec_erange(),
{
    libc::ERANGE
}

} // verus!
