//! What holds of the library as a whole: how an enumeration runs from its
//! first entry to its end, what a buffer that is too small costs, and what an
//! unprivileged caller sees of the shadow database.

use crate::config::{SHADOW_URL, SOCKET_PATH_PRIV};
use crate::cursor::{
    close_slot, close_status, current, next_slot, open_slot, open_status, opened, ready,
    CursorView,
};
use crate::entry::{group_next, next_answer, passwd_next, spwd_lookup, spwd_next};
use crate::errno::{spec_enoent, spec_erange};
use crate::routes::{
    found, listed, name_url, privileged, request_for, shadow_name_request, shadow_request, Reply,
};
use crate::types::{
    group, nss_status, passwd, spwd, AlexandriaGroup, AlexandriaPassword, AlexandriaShadow,
};
use crate::util::{
    address_of, any_nul, group_image, group_record, group_size, group_strings,
    lemma_member_table_len, lemma_packed_grows, lemma_packed_step, member_table, offset_of,
    packed, passwd_fields, passwd_record, passwd_size, report, shadow_fields, shadow_record,
    shadow_size, shadow_written, slot, slot_value, zeros, Answer, Memory, SLOT_BYTES,
};
use vstd::prelude::*;

verus! {

/// The cursor slot after an enumeration over `list` was opened and `calls`
/// calls for the next entry have each been answered with an entry, as far as
/// there were entries.
pub open spec fn drained<T>(list: Seq<T>, calls: nat) -> Option<CursorView<T>>
    decreases calls,
{
    if calls == 0 {
        Some(opened(list))
    } else {
        next_slot(drained(list, (calls - 1) as nat), true)
    }
}

/// After `calls` answered calls the cursor stands at entry `calls`, or at the
/// end of the list if the list is shorter.
proof fn lemma_drained<T>(list: Seq<T>, calls: nat)
    ensures
        drained(list, calls) == Some(
            CursorView { list, index: if calls <= list.len() { calls } else { list.len() } },
        ),
    decreases calls,
{
    if calls > 0 {
        lemma_drained(list, (calls - 1) as nat);
    }
}

/// An enumeration hands out the entries of its list in the order of the list
/// and then reports "not found", however often it is asked again.
///
/// Opening the enumeration puts the cursor at the first entry. While entries
/// are left, call number `calls` (counted from zero) is answered with what
/// writing entry number `calls` hands back, and the cursor moves on. From
/// then on every call reports "not found" with "no such entry", touches
/// neither record nor buffer, and leaves the cursor where it is.
pub proof fn law_enumeration_in_order<T, R>(
    earlier: Option<CursorView<T>>,
    list: Seq<T>,
    calls: nat,
    reopened: Option<Seq<T>>,
    before: Memory<R>,
    written: spec_fn(T) -> Answer<R>,
)
    ensures
        open_status(true, Some(list)) == nss_status::NSS_STATUS_SUCCESS,
        open_slot(earlier, Some(list)) == drained(list, 0),
        next_slot(ready(drained(list, calls), reopened), true) == drained(list, calls + 1),
        calls < list.len() ==> next_answer(Some(drained(list, calls)), reopened, before, written)
            == written(list[calls as int]),
        calls >= list.len() ==> next_answer(Some(drained(list, calls)), reopened, before, written)
            == report(nss_status::NSS_STATUS_NOTFOUND, spec_enoent(), before),
        calls >= list.len() ==> drained(list, calls + 1) == drained(list, calls),
{
    lemma_drained(list, calls);
    lemma_drained(list, calls + 1);
}

/// A call for the next entry never moves the cursor back, never moves it by
/// more than one entry or past the end of its list, and never changes the
/// list.
pub proof fn law_cursor_only_advances<T>(
    cursor: CursorView<T>,
    reopened: Option<Seq<T>>,
    written: bool,
)
    requires
        cursor.index <= cursor.list.len(),
    ensures
        ({
            let after = next_slot(ready(Some(cursor), reopened), written);
            &&& after is Some
            &&& after->0.list == cursor.list
            &&& cursor.index <= after->0.index <= cursor.index + 1
            &&& after->0.index <= cursor.list.len()
        }),
{
}

/// Closing an enumeration whose lock is free succeeds whatever the slot
/// holds, also where it was never opened or is closed already, and leaves the
/// slot empty: closing twice is closing once.
pub proof fn law_close_idempotent<T>(slot: Option<CursorView<T>>)
    ensures
        close_status(true) == nss_status::NSS_STATUS_SUCCESS,
        close_slot(slot) is None,
        close_slot(close_slot(slot)) == close_slot(slot),
{
}

/// A call for the next entry whose answer is not a success leaves the cursor
/// where it is, so that the following call offers the same entry again.
pub proof fn law_no_advance_without_success<T, R>(
    slot: Option<CursorView<T>>,
    reopened: Option<Seq<T>>,
    reopened_later: Option<Seq<T>>,
    later: Memory<R>,
    written: spec_fn(T) -> Answer<R>,
)
    ensures
        next_slot(ready(slot, reopened), false) == ready(slot, reopened),
        next_answer(
            Some(next_slot(ready(slot, reopened), false)),
            reopened_later,
            later,
            written,
        ) == next_answer(Some(ready(slot, reopened)), reopened_later, later, written),
{
}

/// A password entry whose strings hold no NUL byte is not handed out into a
/// buffer that is smaller than the entry needs: the call reports "try again"
/// with "result out of range" and the cursor stays. The next call, with a
/// buffer that is large enough, hands out that same entry.
pub proof fn law_passwd_retry(
    cursor: CursorView<AlexandriaPassword>,
    reopened: Option<Seq<AlexandriaPassword>>,
    address: usize,
    small: Memory<passwd>,
    large: Memory<passwd>,
)
    requires
        current(cursor) is Some,
        !any_nul(passwd_fields(current(cursor)->0@)),
        small.buffer.len() < passwd_size(current(cursor)->0@) <= large.buffer.len(),
    ensures
        ({
            let entry = current(cursor)->0@;
            let first = passwd_next(Some(Some(cursor)), reopened, address, small);
            let slot = next_slot(
                ready(Some(cursor), reopened),
                first.status == nss_status::NSS_STATUS_SUCCESS,
            );
            let second = passwd_next(Some(slot), reopened, address, large);
            &&& first.status == nss_status::NSS_STATUS_TRYAGAIN
            &&& first.memory.errno == spec_erange()
            &&& first.memory.record == small.record
            &&& slot == Some(cursor)
            &&& second.status == nss_status::NSS_STATUS_SUCCESS
            &&& second.memory.errno == large.errno
            &&& second.memory.record == passwd_record(entry, address)
            &&& second.memory.buffer == packed(passwd_fields(entry)) + zeros(
                (large.buffer.len() - passwd_size(entry)) as nat,
            )
        }),
{
    let fields = passwd_fields(current(cursor)->0@);
    assert(fields.take(fields.len() as int) =~= fields);
}

/// A group entry whose strings hold no NUL byte is not handed out into a
/// buffer that is smaller than the entry needs: the call reports "try again"
/// with "result out of range" and the cursor stays. The next call, with a
/// buffer that is large enough, hands out that same entry.
pub proof fn law_group_retry(
    cursor: CursorView<AlexandriaGroup>,
    reopened: Option<Seq<AlexandriaGroup>>,
    address: usize,
    small: Memory<group>,
    large: Memory<group>,
)
    requires
        current(cursor) is Some,
        !any_nul(group_strings(current(cursor)->0@)),
        small.buffer.len() < group_size(current(cursor)->0@, address) <= large.buffer.len(),
    ensures
        ({
            let entry = current(cursor)->0@;
            let first = group_next(Some(Some(cursor)), reopened, address, small);
            let slot = next_slot(
                ready(Some(cursor), reopened),
                first.status == nss_status::NSS_STATUS_SUCCESS,
            );
            let second = group_next(Some(slot), reopened, address, large);
            &&& first.status == nss_status::NSS_STATUS_TRYAGAIN
            &&& first.memory.errno == spec_erange()
            &&& first.memory.record == small.record
            &&& slot == Some(cursor)
            &&& second.status == nss_status::NSS_STATUS_SUCCESS
            &&& second.memory.errno == large.errno
            &&& second.memory.record == group_record(entry, address)
            &&& second.memory.buffer == group_image(entry, address, large.buffer)
        }),
{
}

/// A shadow entry whose strings hold no NUL byte is not handed out into a
/// buffer that is smaller than the entry needs: the call reports "try again"
/// with "result out of range" and the cursor stays. The next call, with a
/// buffer that is large enough, hands out that same entry.
pub proof fn law_shadow_retry(
    cursor: CursorView<AlexandriaShadow>,
    reopened: Option<Seq<AlexandriaShadow>>,
    address: usize,
    small: Memory<spwd>,
    large: Memory<spwd>,
)
    requires
        current(cursor) is Some,
        !any_nul(shadow_fields(current(cursor)->0@)),
        small.buffer.len() < shadow_size(current(cursor)->0@) <= large.buffer.len(),
    ensures
        ({
            let entry = current(cursor)->0@;
            let first = spwd_next(Some(Some(cursor)), reopened, address, small);
            let slot = next_slot(
                ready(Some(cursor), reopened),
                first.status == nss_status::NSS_STATUS_SUCCESS,
            );
            let second = spwd_next(Some(slot), reopened, address, large);
            &&& first.status == nss_status::NSS_STATUS_TRYAGAIN
            &&& first.memory.errno == spec_erange()
            &&& first.memory.record == small.record
            &&& slot == Some(cursor)
            &&& second.status == nss_status::NSS_STATUS_SUCCESS
            &&& second.memory.errno == large.errno
            &&& second.memory.record == shadow_record(entry, address)
            &&& second.memory.buffer == packed(shadow_fields(entry)) + zeros(
                (large.buffer.len() - shadow_size(entry)) as nat,
            )
        }),
{
    let fields = shadow_fields(current(cursor)->0@);
    assert(fields.take(fields.len() as int) =~= fields);
}

/// A call for the next entry on a closed enumeration, made with the list that
/// was fetched for it, does what opening the enumeration with that list and
/// then calling does: it gives the same answer and leaves the same cursor. If
/// the list is not empty the answer is what writing its first entry hands
/// back.
pub proof fn law_implicit_reopen<T, R>(
    list: Seq<T>,
    reopened_later: Option<Seq<T>>,
    before: Memory<R>,
    written: spec_fn(T) -> Answer<R>,
    success: bool,
)
    ensures
        next_answer(Some(None), Some(list), before, written) == next_answer(
            Some(open_slot(None, Some(list))),
            reopened_later,
            before,
            written,
        ),
        next_slot(ready(None, Some(list)), success) == next_slot(
            ready(open_slot(None, Some(list)), reopened_later),
            success,
        ),
        list.len() > 0 ==> next_answer(Some(None), Some(list), before, written) == written(
            list[0],
        ),
{
}

/// A caller other than the privileged account gets no request for shadow
/// data, by name or for the whole database. The reply that stands for "not
/// asked" brings no entry and an empty list, so a lookup by name reports "not
/// found", and an enumeration opens and reports "not found" at its first
/// call: such a caller is never told that it may not look.
pub proof fn law_shadow_hidden(
    euid: u32,
    name: Seq<char>,
    earlier: Option<CursorView<AlexandriaShadow>>,
    reopened: Option<Seq<AlexandriaShadow>>,
    address: usize,
    before: Memory<spwd>,
)
    requires
        !privileged(euid),
    ensures
        shadow_request(euid) is None,
        shadow_name_request(euid, name) is None,
        spwd_lookup(found(Reply::Unasked), address, before) == report(
            nss_status::NSS_STATUS_NOTFOUND,
            spec_enoent(),
            before,
        ),
        open_status(true, listed::<AlexandriaShadow>(Reply::Unasked))
            == nss_status::NSS_STATUS_SUCCESS,
        spwd_next(
            Some(open_slot(earlier, listed::<AlexandriaShadow>(Reply::Unasked))),
            reopened,
            address,
            before,
        ) == report(nss_status::NSS_STATUS_NOTFOUND, spec_enoent(), before),
{
}

/// The privileged account gets its requests for shadow data, addressed to the
/// restricted socket, and sees what the backend sent: the entry of a lookup
/// by name is written to the caller, and an enumeration opens on the list
/// that was sent.
pub proof fn law_shadow_shown(
    euid: u32,
    name: Seq<char>,
    entry: AlexandriaShadow,
    list: Vec<AlexandriaShadow>,
    earlier: Option<CursorView<AlexandriaShadow>>,
    address: usize,
    before: Memory<spwd>,
)
    requires
        privileged(euid),
    ensures
        shadow_request(euid) == Some(request_for(SOCKET_PATH_PRIV@, SHADOW_URL@)),
        shadow_name_request(euid, name) == Some(
            request_for(SOCKET_PATH_PRIV@, name_url(SHADOW_URL@, name)),
        ),
        spwd_lookup(found(Reply::Body(entry)), address, before) == shadow_written(
            entry@,
            address,
            before,
        ),
        open_status(true, listed(Reply::Body(list))) == nss_status::NSS_STATUS_SUCCESS,
        open_slot(earlier, listed(Reply::Body(list))) == Some(opened(list@)),
{
}

/// The strings placed first are the start of the whole.
proof fn lemma_packed_prefix(fields: Seq<Seq<u8>>, k: int)
    requires
        0 <= k <= fields.len(),
    ensures
        packed(fields.take(k)).len() <= packed(fields).len(),
        packed(fields.take(k)) == packed(fields).subrange(0, packed(fields.take(k)).len() as int),
    decreases fields.len() - k,
{
    assert(fields.take(fields.len() as int) =~= fields);
    lemma_packed_grows(fields, k, fields.len() as int);
    if k < fields.len() {
        lemma_packed_prefix(fields, k + 1);
        lemma_packed_step(fields, k);
        assert(packed(fields.take(k)) =~= packed(fields).subrange(
            0,
            packed(fields.take(k)).len() as int,
        ));
    } else {
        assert(packed(fields) =~= packed(fields).subrange(0, packed(fields).len() as int));
    }
}

/// Each string that was placed lies at its offset, whole and in one piece,
/// and the byte after it is its terminator, still inside the packed bytes. A
/// reader that starts at the string's address and stops at the first NUL byte
/// therefore reads the string, if the string itself holds no NUL byte.
pub proof fn law_string_at_its_offset(fields: Seq<Seq<u8>>, k: int)
    requires
        0 <= k < fields.len(),
    ensures
        offset_of(fields, k) + fields[k].len() < packed(fields).len(),
        packed(fields).subrange(
            offset_of(fields, k) as int,
            (offset_of(fields, k) + fields[k].len()) as int,
        ) == fields[k],
        packed(fields)[(offset_of(fields, k) + fields[k].len()) as int] == 0u8,
{
    lemma_packed_step(fields, k);
    lemma_packed_prefix(fields, k + 1);
    let whole = packed(fields);
    let upto = packed(fields.take(k + 1));
    let at = offset_of(fields, k) as int;
    assert(upto[at + fields[k].len()] == 0u8);
    assert(whole.subrange(at, at + fields[k].len()) =~= fields[k]) by {
        assert forall|j: int| 0 <= j < fields[k].len() implies whole[at + j] == fields[k][j] by {
            assert(upto[at + j] == fields[k][j]);
        }
    }
}

/// Entry `i` of a group's member table holds the address of the name of
/// member `i`, which is string `i + 2` of the group's strings.
pub proof fn law_member_table_entry(strings: Seq<Seq<u8>>, address: usize, count: nat, i: int)
    requires
        0 <= i < count,
    ensures
        member_table(strings, address, count).len() == SLOT_BYTES * count,
        member_table(strings, address, count).subrange(SLOT_BYTES * i, SLOT_BYTES * i + SLOT_BYTES)
            == slot(address_of(address, strings, i + 2)),
    decreases count,
{
    lemma_member_table_len(strings, address, count);
    lemma_member_table_len(strings, address, (count - 1) as nat);
    let table = member_table(strings, address, count);
    let shorter = member_table(strings, address, (count - 1) as nat);
    if i == count - 1 {
        assert(table.subrange(SLOT_BYTES * i, SLOT_BYTES * i + SLOT_BYTES) =~= slot(
            address_of(address, strings, i + 2),
        ));
    } else {
        law_member_table_entry(strings, address, (count - 1) as nat, i);
        assert(table.subrange(SLOT_BYTES * i, SLOT_BYTES * i + SLOT_BYTES) =~= shorter.subrange(
            SLOT_BYTES * i,
            SLOT_BYTES * i + SLOT_BYTES,
        ));
    }
}

/// A table entry holds its address: the eight bytes, lowest first, stand for
/// the address that was written.
pub proof fn law_slot_holds_address(value: usize)
    ensures
        slot(value).len() == SLOT_BYTES,
        slot_value(slot(value)) == value,
{
    let v = value as u64;
    assert((v % 0x100) + 0x100 * (v / 0x100 % 0x100) + 0x1_0000 * (v / 0x1_0000 % 0x100)
        + 0x100_0000 * (v / 0x100_0000 % 0x100) + 0x1_0000_0000 * (v / 0x1_0000_0000 % 0x100)
        + 0x100_0000_0000 * (v / 0x100_0000_0000 % 0x100) + 0x1_0000_0000_0000 * (v
        / 0x1_0000_0000_0000 % 0x100) + 0x100_0000_0000_0000 * (v / 0x100_0000_0000_0000 % 0x100)
        == v) by (bit_vector);
}

} // verus!
