//! The entry points the lookup dispatcher calls, one family for each
//! database: open, close and next for the enumeration, and the point lookups.
//!
//! Each entry point takes what the outside world gave for this call (the
//! backend's answer, the cursor slot if its lock was free) and turns it into
//! a status, an error number, and the caller's record and buffer.

use crate::cursor::{
    begin_enumeration, close_slot, close_status, end_enumeration, fetched_list, next_outcome,
    next_slot, open_slot, open_status, ready, reopen, reopened_list, slot_view, CursorOutcome,
    CursorView, DbList,
};
use crate::errno::{eagain, enoent, spec_eagain, spec_enoent};
use crate::types::{
    group, nss_status, passwd, spwd, AlexandriaGroup, AlexandriaPassword, AlexandriaShadow,
    AlexandriaSvcError,
};
use crate::util::{
    answer, group_written, memory, passwd_written, report, shadow_written, write_group,
    write_passwd, write_shadow, Answer, Memory,
};
use vstd::prelude::*;

verus! {

/// What a point lookup hands back: "try again" where the backend failed,
/// "not found" where it has no such entry, and else what writing the entry
/// hands back.
pub open spec fn lookup_answer<T, R>(
    lookup: Result<Option<T>, AlexandriaSvcError>,
    before: Memory<R>,
    written: spec_fn(T) -> Answer<R>,
) -> Answer<R> {
    match lookup {
        Err(_) => report(nss_status::NSS_STATUS_TRYAGAIN, spec_eagain(), before),
        Ok(None) => report(nss_status::NSS_STATUS_NOTFOUND, spec_enoent(), before),
        Ok(Some(entry)) => written(entry),
    }
}

/// What a call for the next entry hands back. `lock` is the cursor slot, or
/// nothing where another caller holds its lock, which reports "try again". So
/// does a slot that is empty and stays so. A cursor at its end reports "not
/// found". Otherwise the answer is what writing the cursor's entry hands back.
pub open spec fn next_answer<T, R>(
    lock: Option<Option<CursorView<T>>>,
    reopened: Option<Seq<T>>,
    before: Memory<R>,
    written: spec_fn(T) -> Answer<R>,
) -> Answer<R> {
    match lock {
        None => report(nss_status::NSS_STATUS_TRYAGAIN, spec_eagain(), before),
        Some(slot) => match next_outcome(ready(slot, reopened)) {
            CursorOutcome::NotOpen => report(
                nss_status::NSS_STATUS_TRYAGAIN,
                spec_eagain(),
                before,
            ),
            CursorOutcome::Exhausted => report(
                nss_status::NSS_STATUS_NOTFOUND,
                spec_enoent(),
                before,
            ),
            CursorOutcome::Record(entry) => written(entry),
        },
    }
}

/// What a point lookup in the password database hands back.
pub open spec fn passwd_lookup(
    lookup: Result<Option<AlexandriaPassword>, AlexandriaSvcError>,
    address: usize,
    before: Memory<passwd>,
) -> Answer<passwd> {
    lookup_answer(lookup, before,
        |entry: AlexandriaPassword| passwd_written(entry@, address, before),
    )
}

/// What a call for the next entry of the password database hands back. `lock`
/// is the cursor slot, or nothing where another caller holds its lock.
pub open spec fn passwd_next(
    lock: Option<Option<CursorView<AlexandriaPassword>>>,
    reopened: Option<Seq<AlexandriaPassword>>,
    address: usize,
    before: Memory<passwd>,
) -> Answer<passwd> {
    next_answer(lock, reopened, before,
        |entry: AlexandriaPassword| passwd_written(entry@, address, before),
    )
}

/// Opens the enumeration of the password database. `lock` is the cursor slot,
/// or nothing where another caller holds its lock; `fetched` is the backend's
/// answer to the request for the full list.
pub fn _nss_alexandria_setpwent(
    lock: Option<&mut Option<DbList<AlexandriaPassword>>>,
    _stayopen: i32,
    fetched: Result<Vec<AlexandriaPassword>, AlexandriaSvcError>,
) -> (status: nss_status)
    ensures
        status == open_status(lock is Some, fetched_list(fetched)),
        lock matches Some(slot) ==> slot_view(*final(slot)) == open_slot(
            slot_view(*slot),
            fetched_list(fetched),
        ),
{
    begin_enumeration(lock, fetched)
}

/// Closes the enumeration of the password database. `lock` is the cursor slot,
/// or nothing where another caller holds its lock.
pub fn _nss_alexandria_endpwent(lock: Option<&mut Option<DbList<AlexandriaPassword>>>) -> (status: nss_status)
    ensures
        status == close_status(lock is Some),
        lock matches Some(slot) ==> slot_view(*final(slot)) == close_slot(slot_view(*slot)),
{
    end_enumeration(lock)
}

/// Hands out the next entry of the password database. `lock` is the cursor
/// slot, or nothing where another caller holds its lock; `reopened` is the
/// backend's answer to a request for the full list, made for this call
/// because the slot was empty; the buffer's first byte lies at `address`.
///
/// A held lock reports "try again". An empty slot is filled from `reopened`;
/// where that brings no list, the call reports "try again" too. Once every
/// entry has been handed out the call reports "not found". Otherwise the
/// entry that comes next is written to the caller, and the cursor moves on
/// only if that succeeded: after a buffer that was too small, the same entry
/// is offered again.
pub fn _nss_alexandria_getpwent_r(
    lock: Option<&mut Option<DbList<AlexandriaPassword>>>,
    reopened: Option<Result<Vec<AlexandriaPassword>, AlexandriaSvcError>>,
    result: &mut passwd,
    address: usize,
    buffer: &mut [u8],
    errnop: &mut i32,
) -> (status: nss_status)
    requires
        address + old(buffer)@.len() <= usize::MAX,
    ensures
        final(buffer)@.len() == old(buffer)@.len(),
        answer(status, *final(result), final(buffer)@, *final(errnop)) == passwd_next(
            match lock {
                Some(slot) => Some(slot_view(*slot)),
                None => None,
            },
            reopened_list(reopened),
            address,
            memory(*old(result), old(buffer)@, *old(errnop)),
        ),
        lock matches Some(slot) ==> slot_view(*final(slot)) == next_slot(
            ready(slot_view(*slot), reopened_list(reopened)),
            status == nss_status::NSS_STATUS_SUCCESS,
        ),
{
    let slot = match lock {
        Some(slot) => slot,
        None => {
            *errnop = eagain();
            return nss_status::NSS_STATUS_TRYAGAIN;
        },
    };
    reopen(slot, reopened);
    let cursor = match slot {
        Some(cursor) => cursor,
        None => {
            *errnop = eagain();
            return nss_status::NSS_STATUS_TRYAGAIN;
        },
    };
    let e = match cursor.get_current_entry() {
        Some(e) => e.clone(),
        None => {
            *errnop = enoent();
            return nss_status::NSS_STATUS_NOTFOUND;
        },
    };
    match write_passwd(e, result, address, buffer, errnop) {
        nss_status::NSS_STATUS_SUCCESS => {
            cursor.increment_index();
            nss_status::NSS_STATUS_SUCCESS
        },
        status => status,
    }
}

/// Answers a lookup of one password entry by its numeric id. `lookup` is the backend's
/// answer to the request; the buffer's first byte lies at `address`.
pub fn _nss_alexandria_getpwuid_r(
    lookup: Result<Option<AlexandriaPassword>, AlexandriaSvcError>,
    result: &mut passwd,
    address: usize,
    buffer: &mut [u8],
    errnop: &mut i32,
) -> (status: nss_status)
    requires
        address + old(buffer)@.len() <= usize::MAX,
    ensures
        final(buffer)@.len() == old(buffer)@.len(),
        answer(status, *final(result), final(buffer)@, *final(errnop)) == passwd_lookup(
            lookup,
            address,
            memory(*old(result), old(buffer)@, *old(errnop)),
        ),
{
    match lookup {
        Err(_) => {
            *errnop = eagain();
            nss_status::NSS_STATUS_TRYAGAIN
        },
        Ok(possible_entry) => match possible_entry {
            None => {
                *errnop = enoent();
                nss_status::NSS_STATUS_NOTFOUND
            },
            Some(entry) => write_passwd(entry, result, address, buffer, errnop),
        },
    }
}

/// Answers a lookup of one password entry by its name. `lookup` is the backend's
/// answer to the request; the buffer's first byte lies at `address`.
pub fn _nss_alexandria_getpwnam_r(
    lookup: Result<Option<AlexandriaPassword>, AlexandriaSvcError>,
    result: &mut passwd,
    address: usize,
    buffer: &mut [u8],
    errnop: &mut i32,
) -> (status: nss_status)
    requires
        address + old(buffer)@.len() <= usize::MAX,
    ensures
        final(buffer)@.len() == old(buffer)@.len(),
        answer(status, *final(result), final(buffer)@, *final(errnop)) == passwd_lookup(
            lookup,
            address,
            memory(*old(result), old(buffer)@, *old(errnop)),
        ),
{
    match lookup {
        Err(_) => {
            *errnop = eagain();
            nss_status::NSS_STATUS_TRYAGAIN
        },
        Ok(possible_entry) => match possible_entry {
            None => {
                *errnop = enoent();
                nss_status::NSS_STATUS_NOTFOUND
            },
            Some(entry) => write_passwd(entry, result, address, buffer, errnop),
        },
    }
}

/// What a point lookup in the group database hands back.
pub open spec fn group_lookup(
    lookup: Result<Option<AlexandriaGroup>, AlexandriaSvcError>,
    address: usize,
    before: Memory<group>,
) -> Answer<group> {
    lookup_answer(lookup, before,
        |entry: AlexandriaGroup| group_written(entry@, address, before),
    )
}

/// What a call for the next entry of the group database hands back. `lock`
/// is the cursor slot, or nothing where another caller holds its lock.
pub open spec fn group_next(
    lock: Option<Option<CursorView<AlexandriaGroup>>>,
    reopened: Option<Seq<AlexandriaGroup>>,
    address: usize,
    before: Memory<group>,
) -> Answer<group> {
    next_answer(lock, reopened, before,
        |entry: AlexandriaGroup| group_written(entry@, address, before),
    )
}

/// Opens the enumeration of the group database. `lock` is the cursor slot,
/// or nothing where another caller holds its lock; `fetched` is the backend's
/// answer to the request for the full list.
pub fn _nss_alexandria_setgrent(
    lock: Option<&mut Option<DbList<AlexandriaGroup>>>,
    _stayopen: i32,
    fetched: Result<Vec<AlexandriaGroup>, AlexandriaSvcError>,
) -> (status: nss_status)
    ensures
        status == open_status(lock is Some, fetched_list(fetched)),
        lock matches Some(slot) ==> slot_view(*final(slot)) == open_slot(
            slot_view(*slot),
            fetched_list(fetched),
        ),
{
    begin_enumeration(lock, fetched)
}

/// Closes the enumeration of the group database. `lock` is the cursor slot,
/// or nothing where another caller holds its lock.
pub fn _nss_alexandria_endgrent(lock: Option<&mut Option<DbList<AlexandriaGroup>>>) -> (status: nss_status)
    ensures
        status == close_status(lock is Some),
        lock matches Some(slot) ==> slot_view(*final(slot)) == close_slot(slot_view(*slot)),
{
    end_enumeration(lock)
}

/// Hands out the next entry of the group database. `lock` is the cursor
/// slot, or nothing where another caller holds its lock; `reopened` is the
/// backend's answer to a request for the full list, made for this call
/// because the slot was empty; the buffer's first byte lies at `address`.
///
/// A held lock reports "try again". An empty slot is filled from `reopened`;
/// where that brings no list, the call reports "try again" too. Once every
/// entry has been handed out the call reports "not found". Otherwise the
/// entry that comes next is written to the caller, and the cursor moves on
/// only if that succeeded: after a buffer that was too small, the same entry
/// is offered again.
pub fn _nss_alexandria_getgrent_r(
    lock: Option<&mut Option<DbList<AlexandriaGroup>>>,
    reopened: Option<Result<Vec<AlexandriaGroup>, AlexandriaSvcError>>,
    result: &mut group,
    address: usize,
    buffer: &mut [u8],
    errnop: &mut i32,
) -> (status: nss_status)
    requires
        address + old(buffer)@.len() <= usize::MAX,
    ensures
        final(buffer)@.len() == old(buffer)@.len(),
        answer(status, *final(result), final(buffer)@, *final(errnop)) == group_next(
            match lock {
                Some(slot) => Some(slot_view(*slot)),
                None => None,
            },
            reopened_list(reopened),
            address,
            memory(*old(result), old(buffer)@, *old(errnop)),
        ),
        lock matches Some(slot) ==> slot_view(*final(slot)) == next_slot(
            ready(slot_view(*slot), reopened_list(reopened)),
            status == nss_status::NSS_STATUS_SUCCESS,
        ),
{
    let slot = match lock {
        Some(slot) => slot,
        None => {
            *errnop = eagain();
            return nss_status::NSS_STATUS_TRYAGAIN;
        },
    };
    reopen(slot, reopened);
    let cursor = match slot {
        Some(cursor) => cursor,
        None => {
            *errnop = eagain();
            return nss_status::NSS_STATUS_TRYAGAIN;
        },
    };
    let e = match cursor.get_current_entry() {
        Some(e) => e.clone(),
        None => {
            *errnop = enoent();
            return nss_status::NSS_STATUS_NOTFOUND;
        },
    };
    match write_group(e, result, address, buffer, errnop) {
        nss_status::NSS_STATUS_SUCCESS => {
            cursor.increment_index();
            nss_status::NSS_STATUS_SUCCESS
        },
        status => status,
    }
}

/// Answers a lookup of one group entry by its numeric id. `lookup` is the backend's
/// answer to the request; the buffer's first byte lies at `address`.
pub fn _nss_alexandria_getgrgid_r(
    lookup: Result<Option<AlexandriaGroup>, AlexandriaSvcError>,
    result: &mut group,
    address: usize,
    buffer: &mut [u8],
    errnop: &mut i32,
) -> (status: nss_status)
    requires
        address + old(buffer)@.len() <= usize::MAX,
    ensures
        final(buffer)@.len() == old(buffer)@.len(),
        answer(status, *final(result), final(buffer)@, *final(errnop)) == group_lookup(
            lookup,
            address,
            memory(*old(result), old(buffer)@, *old(errnop)),
        ),
{
    match lookup {
        Err(_) => {
            *errnop = eagain();
            nss_status::NSS_STATUS_TRYAGAIN
        },
        Ok(possible_entry) => match possible_entry {
            None => {
                *errnop = enoent();
                nss_status::NSS_STATUS_NOTFOUND
            },
            Some(entry) => write_group(entry, result, address, buffer, errnop),
        },
    }
}

/// Answers a lookup of one group entry by its name. `lookup` is the backend's
/// answer to the request; the buffer's first byte lies at `address`.
pub fn _nss_alexandria_getgrnam_r(
    lookup: Result<Option<AlexandriaGroup>, AlexandriaSvcError>,
    result: &mut group,
    address: usize,
    buffer: &mut [u8],
    errnop: &mut i32,
) -> (status: nss_status)
    requires
        address + old(buffer)@.len() <= usize::MAX,
    ensures
        final(buffer)@.len() == old(buffer)@.len(),
        answer(status, *final(result), final(buffer)@, *final(errnop)) == group_lookup(
            lookup,
            address,
            memory(*old(result), old(buffer)@, *old(errnop)),
        ),
{
    match lookup {
        Err(_) => {
            *errnop = eagain();
            nss_status::NSS_STATUS_TRYAGAIN
        },
        Ok(possible_entry) => match possible_entry {
            None => {
                *errnop = enoent();
                nss_status::NSS_STATUS_NOTFOUND
            },
            Some(entry) => write_group(entry, result, address, buffer, errnop),
        },
    }
}

/// What a point lookup in the shadow database hands back.
pub open spec fn spwd_lookup(
    lookup: Result<Option<AlexandriaShadow>, AlexandriaSvcError>,
    address: usize,
    before: Memory<spwd>,
) -> Answer<spwd> {
    lookup_answer(lookup, before,
        |entry: AlexandriaShadow| shadow_written(entry@, address, before),
    )
}

/// What a call for the next entry of the shadow database hands back. `lock`
/// is the cursor slot, or nothing where another caller holds its lock.
pub open spec fn spwd_next(
    lock: Option<Option<CursorView<AlexandriaShadow>>>,
    reopened: Option<Seq<AlexandriaShadow>>,
    address: usize,
    before: Memory<spwd>,
) -> Answer<spwd> {
    next_answer(lock, reopened, before,
        |entry: AlexandriaShadow| shadow_written(entry@, address, before),
    )
}

/// Opens the enumeration of the shadow database. `lock` is the cursor slot,
/// or nothing where another caller holds its lock; `fetched` is the backend's
/// answer to the request for the full list.
pub fn _nss_alexandria_setspent(
    lock: Option<&mut Option<DbList<AlexandriaShadow>>>,
    _stayopen: i32,
    fetched: Result<Vec<AlexandriaShadow>, AlexandriaSvcError>,
) -> (status: nss_status)
    ensures
        status == open_status(lock is Some, fetched_list(fetched)),
        lock matches Some(slot) ==> slot_view(*final(slot)) == open_slot(
            slot_view(*slot),
            fetched_list(fetched),
        ),
{
    begin_enumeration(lock, fetched)
}

/// Closes the enumeration of the shadow database. `lock` is the cursor slot,
/// or nothing where another caller holds its lock.
pub fn _nss_alexandria_endspent(lock: Option<&mut Option<DbList<AlexandriaShadow>>>) -> (status: nss_status)
    ensures
        status == close_status(lock is Some),
        lock matches Some(slot) ==> slot_view(*final(slot)) == close_slot(slot_view(*slot)),
{
    end_enumeration(lock)
}

/// Hands out the next entry of the shadow database. `lock` is the cursor
/// slot, or nothing where another caller holds its lock; `reopened` is the
/// backend's answer to a request for the full list, made for this call
/// because the slot was empty; the buffer's first byte lies at `address`.
///
/// A held lock reports "try again". An empty slot is filled from `reopened`;
/// where that brings no list, the call reports "try again" too. Once every
/// entry has been handed out the call reports "not found". Otherwise the
/// entry that comes next is written to the caller, and the cursor moves on
/// only if that succeeded: after a buffer that was too small, the same entry
/// is offered again.
pub fn _nss_alexandria_getspent_r(
    lock: Option<&mut Option<DbList<AlexandriaShadow>>>,
    reopened: Option<Result<Vec<AlexandriaShadow>, AlexandriaSvcError>>,
    result: &mut spwd,
    address: usize,
    buffer: &mut [u8],
    errnop: &mut i32,
) -> (status: nss_status)
    requires
        address + old(buffer)@.len() <= usize::MAX,
    ensures
        final(buffer)@.len() == old(buffer)@.len(),
        answer(status, *final(result), final(buffer)@, *final(errnop)) == spwd_next(
            match lock {
                Some(slot) => Some(slot_view(*slot)),
                None => None,
            },
            reopened_list(reopened),
            address,
            memory(*old(result), old(buffer)@, *old(errnop)),
        ),
        lock matches Some(slot) ==> slot_view(*final(slot)) == next_slot(
            ready(slot_view(*slot), reopened_list(reopened)),
            status == nss_status::NSS_STATUS_SUCCESS,
        ),
{
    let slot = match lock {
        Some(slot) => slot,
        None => {
            *errnop = eagain();
            return nss_status::NSS_STATUS_TRYAGAIN;
        },
    };
    reopen(slot, reopened);
    let cursor = match slot {
        Some(cursor) => cursor,
        None => {
            *errnop = eagain();
            return nss_status::NSS_STATUS_TRYAGAIN;
        },
    };
    let e = match cursor.get_current_entry() {
        Some(e) => e.clone(),
        None => {
            *errnop = enoent();
            return nss_status::NSS_STATUS_NOTFOUND;
        },
    };
    match write_shadow(e, result, address, buffer, errnop) {
        nss_status::NSS_STATUS_SUCCESS => {
            cursor.increment_index();
            nss_status::NSS_STATUS_SUCCESS
        },
        status => status,
    }
}

/// Answers a lookup of one shadow entry by its name. `lookup` is the backend's
/// answer to the request; the buffer's first byte lies at `address`.
pub fn _nss_alexandria_getspnam_r(
    lookup: Result<Option<AlexandriaShadow>, AlexandriaSvcError>,
    result: &mut spwd,
    address: usize,
    buffer: &mut [u8],
    errnop: &mut i32,
) -> (status: nss_status)
    requires
        address + old(buffer)@.len() <= usize::MAX,
    ensures
        final(buffer)@.len() == old(buffer)@.len(),
        answer(status, *final(result), final(buffer)@, *final(errnop)) == spwd_lookup(
            lookup,
            address,
            memory(*old(result), old(buffer)@, *old(errnop)),
        ),
{
    match lookup {
        Err(_) => {
            *errnop = eagain();
            nss_status::NSS_STATUS_TRYAGAIN
        },
        Ok(possible_entry) => match possible_entry {
            None => {
                *errnop = enoent();
                nss_status::NSS_STATUS_NOTFOUND
            },
            Some(entry) => write_shadow(entry, result, address, buffer, errnop),
        },
    }
}

} // verus!
