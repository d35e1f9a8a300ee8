//! The buffer writer: it places the variable-length fields of a record in a
//! caller-owned byte region and hands back a fixed-width record whose string
//! fields are addresses inside that region.
//!
//! The region is used as a bump arena. It is cleared first; then each string
//! is copied to the next free byte and closed by one NUL byte. A string is
//! refused unless the free bytes outnumber its length, so that the terminator
//! always has room.

use crate::errno::{enomem, erange, spec_enomem, spec_erange};
use crate::types::{
    group, nss_status, passwd, spwd, AlexandriaGroup, AlexandriaPassword, AlexandriaShadow,
    GroupView, PasswordView, ShadowView,
};
use vstd::prelude::*;
use vstd::utf8::*;

verus! {

/// Whether a byte string holds a NUL byte, which no C string can carry.
pub open spec fn has_nul(bytes: Seq<u8>) -> bool {
    exists|i: int| 0 <= i < bytes.len() && bytes[i] == 0u8
}

/// Whether any of the strings holds a NUL byte.
pub open spec fn any_nul(fields: Seq<Seq<u8>>) -> bool {
    exists|k: int| 0 <= k < fields.len() && has_nul(#[trigger] fields[k])
}

/// `n` NUL bytes.
pub open spec fn zeros(n: nat) -> Seq<u8> {
    Seq::new(n, |i: int| 0u8)
}

/// The strings one after the other, each closed by a NUL byte.
pub open spec fn packed(fields: Seq<Seq<u8>>) -> Seq<u8>
    decreases fields.len(),
{
    if fields.len() == 0 {
        Seq::empty()
    } else {
        packed(fields.drop_last()) + fields.last() + seq![0u8]
    }
}

/// How many of the strings, taken in order, an arena of `cap` bytes holds
/// before one of them no longer fits with its terminator.
pub open spec fn placed(fields: Seq<Seq<u8>>, cap: nat) -> nat
    decreases fields.len(),
{
    if fields.len() == 0 {
        0
    } else if packed(fields).len() <= cap {
        fields.len()
    } else {
        placed(fields.drop_last(), cap)
    }
}

/// An arena of `cap` bytes after the strings were placed in it one by one,
/// until all are in or one did not fit: the strings that are in, then NUL
/// bytes to the end.
pub open spec fn arena(fields: Seq<Seq<u8>>, cap: nat) -> Seq<u8> {
    let strings = packed(fields.take(placed(fields, cap) as int));
    strings + zeros((cap - strings.len()) as nat)
}

/// The offset at which string `k` starts once the strings before it are placed.
pub open spec fn offset_of(fields: Seq<Seq<u8>>, k: int) -> nat {
    packed(fields.take(k)).len()
}

/// How a write into the caller's buffer ended.
pub enum Outcome {
    /// Every field is in the buffer.
    Written,
    /// The buffer is too small for the record.
    TooSmall,
    /// A string of the record holds a NUL byte.
    EmbeddedNul,
}

/// The status reported for an outcome.
pub open spec fn outcome_status(outcome: Outcome) -> nss_status {
    match outcome {
        Outcome::Written => nss_status::NSS_STATUS_SUCCESS,
        Outcome::TooSmall => nss_status::NSS_STATUS_TRYAGAIN,
        Outcome::EmbeddedNul => nss_status::NSS_STATUS_TRYAGAIN,
    }
}

/// The error number left behind for an outcome; a write that succeeds leaves
/// the number it found.
pub open spec fn outcome_errno(outcome: Outcome, before: i32) -> i32 {
    match outcome {
        Outcome::Written => before,
        Outcome::TooSmall => spec_erange(),
        Outcome::EmbeddedNul => spec_enomem(),
    }
}

/// What the caller lends to a call: the record to fill, the buffer for the
/// record's strings, and the error number.
pub struct Memory<R> {
    pub record: R,
    pub buffer: Seq<u8>,
    pub errno: i32,
}

/// What a call hands back: its status and the caller's memory as it leaves it.
pub struct Answer<R> {
    pub status: nss_status,
    pub memory: Memory<R>,
}

/// The caller's memory, from its three parts.
pub open spec fn memory<R>(record: R, buffer: Seq<u8>, errno: i32) -> Memory<R> {
    Memory { record, buffer, errno }
}

/// An answer, from the status and the three parts of the caller's memory.
pub open spec fn answer<R>(status: nss_status, record: R, buffer: Seq<u8>, errno: i32) -> Answer<R> {
    Answer { status, memory: Memory { record, buffer, errno } }
}

/// An answer that only reports: the record and the buffer stay as they were.
pub open spec fn report<R>(status: nss_status, errno: i32, before: Memory<R>) -> Answer<R> {
    Answer { status, memory: Memory { record: before.record, buffer: before.buffer, errno } }
}

/// Placing one more string appends it and its terminator.
pub proof fn lemma_packed_step(fields: Seq<Seq<u8>>, k: int)
    requires
        0 <= k < fields.len(),
    ensures
        packed(fields.take(k + 1)) == packed(fields.take(k)) + fields[k] + seq![0u8],
{
    assert(fields.take(k + 1).drop_last() =~= fields.take(k));
    assert(fields.take(k + 1).last() == fields[k]);
}

/// The packed length grows with the number of strings.
pub proof fn lemma_packed_grows(fields: Seq<Seq<u8>>, j: int, k: int)
    requires
        0 <= j <= k <= fields.len(),
    ensures
        packed(fields.take(j)).len() <= packed(fields.take(k)).len(),
    decreases k - j,
{
    if j < k {
        lemma_packed_step(fields, k - 1);
        lemma_packed_grows(fields, j, k - 1);
    }
}

/// Strings that fit are all placed.
proof fn lemma_placed_all(fields: Seq<Seq<u8>>, cap: nat)
    requires
        packed(fields).len() <= cap,
    ensures
        placed(fields, cap) == fields.len(),
{
}

/// The first string that does not fit ends the placing.
proof fn lemma_placed_stops(fields: Seq<Seq<u8>>, cap: nat, k: int)
    requires
        0 <= k < fields.len(),
        packed(fields.take(k)).len() <= cap < packed(fields.take(k + 1)).len(),
    ensures
        placed(fields, cap) == k,
    decreases fields.len(),
{
    assert(fields.take(fields.len() as int) =~= fields);
    lemma_packed_grows(fields, k + 1, fields.len() as int);
    if k == fields.len() - 1 {
        assert(fields.drop_last() =~= fields.take(k));
        lemma_placed_all(fields.take(k), cap);
    } else {
        assert(fields.drop_last().take(k) =~= fields.take(k));
        assert(fields.drop_last().take(k + 1) =~= fields.take(k + 1));
        lemma_placed_stops(fields.drop_last(), cap, k);
    }
}

/// Whether the string holds a NUL byte.
fn holds_nul(s: &str) -> (found: bool)
    ensures
        found == has_nul(encode_utf8(s@)),
{
    let bytes = s.as_bytes();
    let mut i: usize = 0;
    while i < bytes.len()
        invariant
            i <= bytes@.len(),
            bytes@ == encode_utf8(s@),
            forall|j: int| 0 <= j < i ==> bytes@[j] != 0u8,
        decreases bytes@.len() - i,
    {
        if bytes[i] == 0 {
            return true;
        }
        i += 1;
    }
    false
}

/// Clears the buffer with NUL bytes.
fn clear(buffer: &mut [u8])
    ensures
        final(buffer)@ == zeros(old(buffer)@.len()),
{
    let mut i: usize = 0;
    while i < buffer.len()
        invariant
            i <= buffer@.len(),
            buffer@.len() == old(buffer)@.len(),
            forall|j: int| 0 <= j < i ==> buffer@[j] == 0u8,
        decreases buffer@.len() - i,
    {
        buffer[i] = 0;
        i += 1;
    }
    assert(buffer@ =~= zeros(old(buffer)@.len()));
}

/// Places string `k` of `fields` at the first free byte, `used`, of an arena
/// that holds the strings before it. Returns the first free byte after it, or
/// nothing, with the arena as it was, where the free bytes do not outnumber
/// the string's length.
fn place(
    buffer: &mut [u8],
    used: usize,
    s: &str,
    Ghost(fields): Ghost<Seq<Seq<u8>>>,
    Ghost(k): Ghost<int>,
) -> (next: Option<usize>)
    requires
        0 <= k < fields.len(),
        fields[k] == encode_utf8(s@),
        used == offset_of(fields, k),
        used <= old(buffer)@.len(),
        old(buffer)@ == packed(fields.take(k)) + zeros((old(buffer)@.len() - used) as nat),
    ensures
        final(buffer)@.len() == old(buffer)@.len(),
        next is Some <==> offset_of(fields, k + 1) <= old(buffer)@.len(),
        next matches Some(n) ==> n == offset_of(fields, k + 1) && final(buffer)@ == packed(
            fields.take(k + 1),
        ) + zeros((old(buffer)@.len() - n) as nat),
        next is None ==> final(buffer)@ == old(buffer)@ && final(buffer)@ == arena(
            fields,
            old(buffer)@.len(),
        ),
{
    let bytes = s.as_bytes();
    let len = bytes.len();
    let ghost cap = buffer@.len();
    let ghost before = buffer@;
    proof {
        lemma_packed_step(fields, k);
    }
    if buffer.len() - used <= len {
        proof {
            lemma_placed_stops(fields, cap, k);
        }
        return None;
    }
    let size = buffer.len();
    let mut i: usize = 0;
    while i < len
        invariant
            i <= len,
            len == bytes@.len(),
            used + len < size,
            size == cap,
            buffer@.len() == cap,
            before.len() == cap,
            forall|j: int| 0 <= j < used ==> buffer@[j] == before[j],
            forall|j: int| 0 <= j < i ==> buffer@[used + j] == bytes@[j],
            forall|j: int| used + i <= j < cap ==> buffer@[j] == before[j],
        decreases len - i,
    {
        buffer[used + i] = bytes[i];
        i += 1;
    }
    buffer[used + len] = 0;
    let next = used + len + 1;
    proof {
        let head = packed(fields.take(k));
        let want = head + fields[k] + seq![0u8] + zeros((cap - next) as nat);
        assert forall|j: int| 0 <= j < cap implies buffer@[j] == want[j] by {
            if j < used {
                assert(before[j] == head[j]);
            } else if j < used + len {
                assert(buffer@[used + (j - used)] == bytes@[j - used]);
            } else if j > used + len {
                assert(before[j] == 0u8);
            }
        }
        assert(buffer@ =~= want);
    }
    Some(next)
}

/// How placing the strings in an arena of `cap` bytes ends.
pub open spec fn strings_outcome(fields: Seq<Seq<u8>>, cap: nat) -> Outcome {
    if any_nul(fields) {
        Outcome::EmbeddedNul
    } else if packed(fields).len() <= cap {
        Outcome::Written
    } else {
        Outcome::TooSmall
    }
}

/// The buffer after an attempt to place the strings in it. A string with a
/// NUL byte is found before the buffer is touched.
pub open spec fn strings_image(fields: Seq<Seq<u8>>, before: Seq<u8>) -> Seq<u8> {
    if any_nul(fields) {
        before
    } else {
        arena(fields, before.len())
    }
}

/// The address of string `k` in a buffer that starts at `address`.
pub open spec fn address_of(address: usize, fields: Seq<Seq<u8>>, k: int) -> usize {
    (address + offset_of(fields, k)) as usize
}

/// The strings of a password entry, in the order in which they are placed.
pub open spec fn passwd_fields(v: PasswordView) -> Seq<Seq<u8>> {
    seq![
        encode_utf8(v.pw_name),
        encode_utf8(v.pw_passwd),
        encode_utf8(v.pw_gecos),
        encode_utf8(v.pw_dir),
        encode_utf8(v.pw_shell),
    ]
}

/// The bytes a password entry needs in the buffer.
pub open spec fn passwd_size(v: PasswordView) -> nat {
    packed(passwd_fields(v)).len()
}

/// How writing a password entry into `cap` bytes ends.
pub open spec fn passwd_outcome(v: PasswordView, cap: nat) -> Outcome {
    strings_outcome(passwd_fields(v), cap)
}

/// The record for a password entry whose strings lie in a buffer at `address`.
pub open spec fn passwd_record(v: PasswordView, address: usize) -> passwd {
    let fields = passwd_fields(v);
    passwd {
        pw_name: address_of(address, fields, 0),
        pw_passwd: address_of(address, fields, 1),
        pw_uid: v.pw_uid,
        pw_gid: v.pw_gid,
        pw_gecos: address_of(address, fields, 2),
        pw_dir: address_of(address, fields, 3),
        pw_shell: address_of(address, fields, 4),
    }
}

/// What writing a password entry hands back.
pub open spec fn passwd_written(v: PasswordView, address: usize, before: Memory<passwd>) -> Answer<
    passwd,
> {
    let outcome = passwd_outcome(v, before.buffer.len());
    Answer {
        status: outcome_status(outcome),
        memory: Memory {
            record: if outcome is Written {
                passwd_record(v, address)
            } else {
                before.record
            },
            buffer: strings_image(passwd_fields(v), before.buffer),
            errno: outcome_errno(outcome, before.errno),
        },
    }
}

/// Writes a password entry into the caller's buffer, whose first byte lies at
/// `address`, and fills the caller's record.
///
/// An entry with a NUL byte in one of its strings is refused with "out of
/// memory" before anything is touched. Otherwise the buffer is cleared and
/// the strings are placed in it in the order name, password, gecos, home
/// directory, shell. Where one does not fit, the call ends with "result out
/// of range", and the record is left as it was. On success the record holds
/// the addresses of the five strings and the two numeric ids, and the error
/// number is left alone.
pub fn write_passwd(
    e: AlexandriaPassword,
    result: &mut passwd,
    address: usize,
    buffer: &mut [u8],
    errnop: &mut i32,
) -> (status: nss_status)
    requires
        address + old(buffer)@.len() <= usize::MAX,
    ensures
        final(buffer)@.len() == old(buffer)@.len(),
        answer(status, *final(result), final(buffer)@, *final(errnop)) == passwd_written(
            e@,
            address,
            memory(*old(result), old(buffer)@, *old(errnop)),
        ),
{
    let ghost fields = passwd_fields(e@);
    let ghost cap = buffer@.len();
    if holds_nul(e.pw_name.as_str()) || holds_nul(e.pw_passwd.as_str()) || holds_nul(
        e.pw_gecos.as_str(),
    ) || holds_nul(e.pw_dir.as_str()) || holds_nul(e.pw_shell.as_str()) {
        assert(has_nul(fields[0]) || has_nul(fields[1]) || has_nul(fields[2]) || has_nul(fields[3])
            || has_nul(fields[4]));
        *errnop = enomem();
        return nss_status::NSS_STATUS_TRYAGAIN;
    }
    assert(!any_nul(fields));
    clear(buffer);
    proof {
        assert(fields.take(0) =~= Seq::<Seq<u8>>::empty());
        assert(buffer@ =~= packed(fields.take(0)) + zeros(cap));
        assert(fields.take(5) =~= fields);
        lemma_packed_grows(fields, 1, 5);
        lemma_packed_grows(fields, 2, 5);
        lemma_packed_grows(fields, 3, 5);
        lemma_packed_grows(fields, 4, 5);
    }
    let passwd_at = match place(buffer, 0, e.pw_name.as_str(), Ghost(fields), Ghost(0)) {
        Some(next) => next,
        None => {
            *errnop = erange();
            return nss_status::NSS_STATUS_TRYAGAIN;
        },
    };
    let gecos_at = match place(buffer, passwd_at, e.pw_passwd.as_str(), Ghost(fields), Ghost(1)) {
        Some(next) => next,
        None => {
            *errnop = erange();
            return nss_status::NSS_STATUS_TRYAGAIN;
        },
    };
    let dir_at = match place(buffer, gecos_at, e.pw_gecos.as_str(), Ghost(fields), Ghost(2)) {
        Some(next) => next,
        None => {
            *errnop = erange();
            return nss_status::NSS_STATUS_TRYAGAIN;
        },
    };
    let shell_at = match place(buffer, dir_at, e.pw_dir.as_str(), Ghost(fields), Ghost(3)) {
        Some(next) => next,
        None => {
            *errnop = erange();
            return nss_status::NSS_STATUS_TRYAGAIN;
        },
    };
    if place(buffer, shell_at, e.pw_shell.as_str(), Ghost(fields), Ghost(4)).is_none() {
        *errnop = erange();
        return nss_status::NSS_STATUS_TRYAGAIN;
    }
    proof {
        lemma_placed_all(fields, cap);
    }
    *result = passwd {
        pw_name: address,
        pw_passwd: address + passwd_at,
        pw_uid: e.pw_uid,
        pw_gid: e.pw_gid,
        pw_gecos: address + gecos_at,
        pw_dir: address + dir_at,
        pw_shell: address + shell_at,
    };
    nss_status::NSS_STATUS_SUCCESS
}

/// The strings of a shadow entry, in the order in which they are placed.
pub open spec fn shadow_fields(v: ShadowView) -> Seq<Seq<u8>> {
    seq![encode_utf8(v.sp_namp), encode_utf8(v.sp_pwdp)]
}

/// The bytes a shadow entry needs in the buffer.
pub open spec fn shadow_size(v: ShadowView) -> nat {
    packed(shadow_fields(v)).len()
}

/// How writing a shadow entry into `cap` bytes ends.
pub open spec fn shadow_outcome(v: ShadowView, cap: nat) -> Outcome {
    strings_outcome(shadow_fields(v), cap)
}

/// The record for a shadow entry whose strings lie in a buffer at `address`.
pub open spec fn shadow_record(v: ShadowView, address: usize) -> spwd {
    let fields = shadow_fields(v);
    spwd {
        sp_namp: address_of(address, fields, 0),
        sp_pwdp: address_of(address, fields, 1),
        sp_lstchg: v.sp_lstchg as i64,
        sp_min: v.sp_min as i64,
        sp_max: v.sp_max as i64,
        sp_warn: v.sp_warn as i64,
        sp_inact: v.sp_inact as i64,
        sp_expire: v.sp_expire as i64,
        sp_flag: v.sp_flag as u64,
    }
}

/// What writing a shadow entry hands back.
pub open spec fn shadow_written(v: ShadowView, address: usize, before: Memory<spwd>) -> Answer<
    spwd,
> {
    let outcome = shadow_outcome(v, before.buffer.len());
    Answer {
        status: outcome_status(outcome),
        memory: Memory {
            record: if outcome is Written {
                shadow_record(v, address)
            } else {
                before.record
            },
            buffer: strings_image(shadow_fields(v), before.buffer),
            errno: outcome_errno(outcome, before.errno),
        },
    }
}

/// Writes a shadow entry into the caller's buffer, whose first byte lies at
/// `address`, and fills the caller's record.
///
/// An entry with a NUL byte in one of its strings is refused with "out of
/// memory" before anything is touched. Otherwise the buffer is cleared and
/// the name and the password hash are placed in it, in this order. Where one
/// does not fit, the call ends with "result out of range", and the record is
/// left as it was. On success the record holds the addresses of the two
/// strings and the aging counters, and the error number is left alone.
pub fn write_shadow(
    e: AlexandriaShadow,
    result: &mut spwd,
    address: usize,
    buffer: &mut [u8],
    errnop: &mut i32,
) -> (status: nss_status)
    requires
        address + old(buffer)@.len() <= usize::MAX,
    ensures
        final(buffer)@.len() == old(buffer)@.len(),
        answer(status, *final(result), final(buffer)@, *final(errnop)) == shadow_written(
            e@,
            address,
            memory(*old(result), old(buffer)@, *old(errnop)),
        ),
{
    let ghost fields = shadow_fields(e@);
    let ghost cap = buffer@.len();
    if holds_nul(e.sp_namp.as_str()) || holds_nul(e.sp_pwdp.as_str()) {
        assert(has_nul(fields[0]) || has_nul(fields[1]));
        *errnop = enomem();
        return nss_status::NSS_STATUS_TRYAGAIN;
    }
    assert(!any_nul(fields));
    clear(buffer);
    proof {
        assert(fields.take(0) =~= Seq::<Seq<u8>>::empty());
        assert(buffer@ =~= packed(fields.take(0)) + zeros(cap));
        assert(fields.take(2) =~= fields);
        lemma_packed_grows(fields, 1, 2);
    }
    let pwdp_at = match place(buffer, 0, e.sp_namp.as_str(), Ghost(fields), Ghost(0)) {
        Some(next) => next,
        None => {
            *errnop = erange();
            return nss_status::NSS_STATUS_TRYAGAIN;
        },
    };
    if place(buffer, pwdp_at, e.sp_pwdp.as_str(), Ghost(fields), Ghost(1)).is_none() {
        *errnop = erange();
        return nss_status::NSS_STATUS_TRYAGAIN;
    }
    proof {
        lemma_placed_all(fields, cap);
    }
    *result = spwd {
        sp_namp: address,
        sp_pwdp: address + pwdp_at,
        sp_lstchg: e.sp_lstchg as i64,
        sp_min: e.sp_min as i64,
        sp_max: e.sp_max as i64,
        sp_warn: e.sp_warn as i64,
        sp_inact: e.sp_inact as i64,
        sp_expire: e.sp_expire as i64,
        sp_flag: e.sp_flag as u64,
    };
    nss_status::NSS_STATUS_SUCCESS
}

/// The width in bytes of one entry of a group's member table: an address on a
/// 64-bit host.
pub const SLOT_BYTES: usize = 8;

/// One entry of the member table: the address in eight bytes, lowest first.
pub open spec fn slot(value: usize) -> Seq<u8> {
    let v = value as int;
    seq![
        (v % 0x100) as u8,
        (v / 0x100 % 0x100) as u8,
        (v / 0x1_0000 % 0x100) as u8,
        (v / 0x100_0000 % 0x100) as u8,
        (v / 0x1_0000_0000 % 0x100) as u8,
        (v / 0x100_0000_0000 % 0x100) as u8,
        (v / 0x1_0000_0000_0000 % 0x100) as u8,
        (v / 0x100_0000_0000_0000 % 0x100) as u8,
    ]
}

/// The address that the eight bytes of a table entry stand for.
pub open spec fn slot_value(bytes: Seq<u8>) -> int {
    bytes[0] + 0x100 * bytes[1] + 0x1_0000 * bytes[2] + 0x100_0000 * bytes[3] + 0x1_0000_0000
        * bytes[4] + 0x100_0000_0000 * bytes[5] + 0x1_0000_0000_0000 * bytes[6]
        + 0x100_0000_0000_0000 * bytes[7]
}

/// The strings of a group entry, in the order in which they are placed: the
/// name, the password, then each member.
pub open spec fn group_strings(v: GroupView) -> Seq<Seq<u8>> {
    seq![encode_utf8(v.gr_name), encode_utf8(v.gr_passwd)] + Seq::new(
        v.gr_mem.len(),
        |i: int| encode_utf8(v.gr_mem[i]),
    )
}

/// The bytes skipped after `used` bytes of strings so that the member table
/// starts at an address that is a multiple of the entry width.
pub open spec fn table_gap(address: usize, used: nat) -> nat {
    ((SLOT_BYTES - (address + used) % (SLOT_BYTES as int)) % (SLOT_BYTES as int)) as nat
}

/// The offset of the member table in the buffer.
pub open spec fn table_offset(v: GroupView, address: usize) -> nat {
    let used = packed(group_strings(v)).len();
    used + table_gap(address, used)
}

/// The first `count` entries of the member table: the addresses of the
/// members' names, in the order of the members.
pub open spec fn member_table(strings: Seq<Seq<u8>>, address: usize, count: nat) -> Seq<u8>
    decreases count,
{
    if count == 0 {
        Seq::empty()
    } else {
        member_table(strings, address, (count - 1) as nat) + slot(
            address_of(address, strings, count as int + 1),
        )
    }
}

/// The bytes a group entry needs in a buffer at `address`: its strings, the
/// gap before the table, one table entry for each member, and one more that
/// stays zero and ends the table.
pub open spec fn group_size(v: GroupView, address: usize) -> nat {
    (table_offset(v, address) + SLOT_BYTES * (v.gr_mem.len() + 1)) as nat
}

/// How writing a group entry into `cap` bytes at `address` ends.
pub open spec fn group_outcome(v: GroupView, address: usize, cap: nat) -> Outcome {
    if any_nul(group_strings(v)) {
        Outcome::EmbeddedNul
    } else if group_size(v, address) <= cap {
        Outcome::Written
    } else {
        Outcome::TooSmall
    }
}

/// The buffer after an attempt to write a group entry into it. Where the
/// entry fits, the strings are followed by the gap, the table of member
/// addresses, and NUL bytes to the end, of which the first eight are the
/// table's closing entry. Where it does not fit, the strings that were placed
/// before the attempt ended are followed by NUL bytes.
pub open spec fn group_image(v: GroupView, address: usize, before: Seq<u8>) -> Seq<u8> {
    let strings = group_strings(v);
    if any_nul(strings) {
        before
    } else if group_size(v, address) <= before.len() {
        let used = packed(strings).len();
        let table_at = table_offset(v, address);
        packed(strings) + zeros(table_gap(address, used)) + member_table(
            strings,
            address,
            v.gr_mem.len(),
        ) + zeros((before.len() - table_at - SLOT_BYTES * v.gr_mem.len()) as nat)
    } else {
        arena(strings, before.len())
    }
}

/// The record for a group entry written into a buffer at `address`.
pub open spec fn group_record(v: GroupView, address: usize) -> group {
    let strings = group_strings(v);
    group {
        gr_name: address_of(address, strings, 0),
        gr_passwd: address_of(address, strings, 1),
        gr_gid: v.gr_gid,
        gr_mem: (address + table_offset(v, address)) as usize,
    }
}

/// What writing a group entry hands back.
pub open spec fn group_written(v: GroupView, address: usize, before: Memory<group>) -> Answer<
    group,
> {
    let outcome = group_outcome(v, address, before.buffer.len());
    Answer {
        status: outcome_status(outcome),
        memory: Memory {
            record: if outcome is Written {
                group_record(v, address)
            } else {
                before.record
            },
            buffer: group_image(v, address, before.buffer),
            errno: outcome_errno(outcome, before.errno),
        },
    }
}

/// A table of `count` entries takes `count` times the entry width.
pub proof fn lemma_member_table_len(strings: Seq<Seq<u8>>, address: usize, count: nat)
    ensures
        member_table(strings, address, count).len() == SLOT_BYTES * count,
    decreases count,
{
    if count > 0 {
        lemma_member_table_len(strings, address, (count - 1) as nat);
    }
}

/// Writes one table entry at offset `at`.
fn put_slot(buffer: &mut [u8], at: usize, value: usize)
    requires
        at + SLOT_BYTES <= old(buffer)@.len(),
    ensures
        final(buffer)@.len() == old(buffer)@.len(),
        final(buffer)@ == old(buffer)@.subrange(0, at as int) + slot(value) + old(
            buffer,
        )@.subrange(at + SLOT_BYTES, old(buffer)@.len() as int),
{
    let v = value as u64;
    buffer[at] = (v % 0x100) as u8;
    buffer[at + 1] = (v / 0x100 % 0x100) as u8;
    buffer[at + 2] = (v / 0x1_0000 % 0x100) as u8;
    buffer[at + 3] = (v / 0x100_0000 % 0x100) as u8;
    buffer[at + 4] = (v / 0x1_0000_0000 % 0x100) as u8;
    buffer[at + 5] = (v / 0x100_0000_0000 % 0x100) as u8;
    buffer[at + 6] = (v / 0x1_0000_0000_0000 % 0x100) as u8;
    buffer[at + 7] = (v / 0x100_0000_0000_0000 % 0x100) as u8;
    assert(buffer@ =~= old(buffer)@.subrange(0, at as int) + slot(value) + old(buffer)@.subrange(
        at + SLOT_BYTES,
        old(buffer)@.len() as int,
    ));
}

/// Whether one of the members' names holds a NUL byte.
fn member_holds_nul(members: &Vec<String>) -> (found: bool)
    ensures
        found == exists|i: int| 0 <= i < members@.len() && has_nul(encode_utf8(members@[i]@)),
{
    let mut i: usize = 0;
    while i < members.len()
        invariant
            i <= members@.len(),
            forall|j: int| 0 <= j < i ==> !has_nul(encode_utf8(members@[j]@)),
        decreases members@.len() - i,
    {
        if holds_nul(members[i].as_str()) {
            return true;
        }
        i += 1;
    }
    false
}

/// Writes a group entry into the caller's buffer, whose first byte lies at
/// `address`, and fills the caller's record.
///
/// An entry with a NUL byte in one of its strings is refused with "out of
/// memory" before anything is touched. Otherwise the buffer is cleared and
/// the name, the password and the members' names are placed in it, in this
/// order. The member table follows at the next address that is a multiple of
/// eight: for each member the address of its name, in eight bytes, lowest
/// first, and after the last member one entry that stays zero, by which a
/// reader finds the table's end. Where a string or the table does not fit,
/// the call ends with "result out of range", and the record is left as it
/// was. On success the record holds the addresses of the name, the password
/// and the table, and the group id, and the error number is left alone.
pub fn write_group(
    e: AlexandriaGroup,
    result: &mut group,
    address: usize,
    buffer: &mut [u8],
    errnop: &mut i32,
) -> (status: nss_status)
    requires
        address + old(buffer)@.len() <= usize::MAX,
    ensures
        final(buffer)@.len() == old(buffer)@.len(),
        answer(status, *final(result), final(buffer)@, *final(errnop)) == group_written(
            e@,
            address,
            memory(*old(result), old(buffer)@, *old(errnop)),
        ),
{
    let ghost strings = group_strings(e@);
    let ghost cap = buffer@.len();
    let count = e.gr_mem.len();
    assert(strings.len() == count + 2);
    assert(forall|i: int| 0 <= i < count ==> strings[i + 2] == encode_utf8(e.gr_mem@[i]@));
    if holds_nul(e.gr_name.as_str()) || holds_nul(e.gr_passwd.as_str()) {
        assert(has_nul(strings[0]) || has_nul(strings[1]));
        *errnop = enomem();
        return nss_status::NSS_STATUS_TRYAGAIN;
    }
    if member_holds_nul(&e.gr_mem) {
        proof {
            let i = choose|i: int| 0 <= i < count && has_nul(encode_utf8(e.gr_mem@[i]@));
            assert(has_nul(strings[i + 2]));
        }
        *errnop = enomem();
        return nss_status::NSS_STATUS_TRYAGAIN;
    }
    assert(!any_nul(strings)) by {
        assert forall|k: int| 0 <= k < strings.len() implies !has_nul(#[trigger] strings[k]) by {
            if k >= 2 {
                assert(strings[(k - 2) + 2] == encode_utf8(e.gr_mem@[k - 2]@));
            }
        }
    }
    let size = buffer.len();
    clear(buffer);
    proof {
        assert(strings.take(0) =~= Seq::<Seq<u8>>::empty());
        assert(buffer@ =~= packed(strings.take(0)) + zeros(cap));
        assert(strings.take(strings.len() as int) =~= strings);
        lemma_packed_grows(strings, 1, strings.len() as int);
        lemma_packed_grows(strings, 2, strings.len() as int);
    }
    let passwd_at = match place(buffer, 0, e.gr_name.as_str(), Ghost(strings), Ghost(0)) {
        Some(next) => next,
        None => {
            *errnop = erange();
            return nss_status::NSS_STATUS_TRYAGAIN;
        },
    };
    let members_at = match place(buffer, passwd_at, e.gr_passwd.as_str(), Ghost(strings), Ghost(1)) {
        Some(next) => next,
        None => {
            *errnop = erange();
            return nss_status::NSS_STATUS_TRYAGAIN;
        },
    };
    let mut used = members_at;
    let mut i: usize = 0;
    while i < count
        invariant
            i <= count,
            count == e.gr_mem@.len(),
            strings == group_strings(e@),
            strings.len() == count + 2,
            forall|j: int| 0 <= j < count ==> strings[j + 2] == encode_utf8(e.gr_mem@[j]@),
            !any_nul(strings),
            buffer@.len() == cap,
            cap == old(buffer)@.len(),
            used == offset_of(strings, i + 2),
            used <= cap,
            buffer@ == packed(strings.take(i + 2)) + zeros((cap - used) as nat),
            *errnop == *old(errnop),
            *result == *old(result),
        decreases count - i,
    {
        proof {
            lemma_packed_grows(strings, i + 3, strings.len() as int);
            assert(strings.take(strings.len() as int) =~= strings);
        }
        used = match place(buffer, used, e.gr_mem[i].as_str(), Ghost(strings), Ghost(i + 2)) {
            Some(next) => next,
            None => {
                *errnop = erange();
                return nss_status::NSS_STATUS_TRYAGAIN;
            },
        };
        i += 1;
    }
    proof {
        assert(strings.take(count + 2) =~= strings);
        lemma_placed_all(strings, cap);
    }
    let gap = (SLOT_BYTES - (address + used) % SLOT_BYTES) % SLOT_BYTES;
    if size - used < gap || (size - used - gap) / SLOT_BYTES <= count {
        *errnop = erange();
        return nss_status::NSS_STATUS_TRYAGAIN;
    }
    let table_at = used + gap;
    let ghost gap_zeros = zeros(gap as nat);
    let mut name_at = members_at;
    let mut i: usize = 0;
    proof {
        assert(buffer@ =~= packed(strings) + gap_zeros + member_table(strings, address, 0) + zeros(
            (cap - table_at) as nat,
        ));
    }
    while i < count
        invariant
            i <= count,
            count == e.gr_mem@.len(),
            strings.len() == count + 2,
            forall|j: int| 0 <= j < count ==> strings[j + 2] == encode_utf8(e.gr_mem@[j]@),
            buffer@.len() == cap,
            address + cap <= usize::MAX,
            used == packed(strings).len(),
            table_at == used + gap,
            gap_zeros == zeros(gap as nat),
            table_at + SLOT_BYTES * (count + 1) <= cap,
            name_at == offset_of(strings, i + 2),
            name_at <= used,
            buffer@ == packed(strings) + gap_zeros + member_table(strings, address, i as nat)
                + zeros((cap - table_at - SLOT_BYTES * i) as nat),
        decreases count - i,
    {
        let ghost before = buffer@;
        proof {
            lemma_member_table_len(strings, address, i as nat);
            lemma_packed_step(strings, i + 2);
            lemma_packed_grows(strings, i + 3, strings.len() as int);
            assert(strings.take(strings.len() as int) =~= strings);
        }
        put_slot(buffer, table_at + SLOT_BYTES * i, address + name_at);
        proof {
            assert(address + name_at == address_of(address, strings, i + 2));
            assert(buffer@ =~= packed(strings) + gap_zeros + member_table(
                strings,
                address,
                (i + 1) as nat,
            ) + zeros((cap - table_at - SLOT_BYTES * (i + 1)) as nat));
        }
        name_at = name_at + e.gr_mem[i].as_str().len() + 1;
        i += 1;
    }
    *result = group {
        gr_name: address,
        gr_passwd: address + passwd_at,
        gr_gid: e.gr_gid,
        gr_mem: address + table_at,
    };
    nss_status::NSS_STATUS_SUCCESS
}

} // verus!
