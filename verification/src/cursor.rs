//! The enumeration cursor: a snapshot of the backend's list and a position in
//! it. One cursor slot exists for each database; a slot is empty while the
//! enumeration is closed.

use crate::types::{nss_status, AlexandriaSvcError};
use vstd::prelude::*;

verus! {

/// The snapshot an enumeration walks and the index of the entry that comes
/// next. The index never passes the end of the list.
pub struct DbList<T> {
    list: Vec<T>,
    index: usize,
}

/// The mathematical content of a [`DbList`].
pub struct CursorView<T> {
    pub list: Seq<T>,
    pub index: nat,
}

impl<T> View for DbList<T> {
    type V = CursorView<T>;

    closed spec fn view(&self) -> CursorView<T> {
        CursorView { list: self.list@, index: self.index as nat }
    }
}

impl<T> DbList<T> {
    #[verifier::type_invariant]
    spec fn within_list(self) -> bool {
        self.index <= self.list@.len()
    }

    /// A cursor at the start of `list`.
    pub fn new(list: Vec<T>) -> (cursor: Self)
        ensures
            cursor@ == opened(list@),
    {
        DbList { list, index: 0 }
    }

    /// The entry that comes next, or nothing once every entry has been
    /// handed out.
    pub fn get_current_entry(&self) -> (entry: Option<&T>)
        ensures
            self@.index <= self@.list.len(),
            match entry {
                Some(e) => current(self@) == Some(*e),
                None => current(self@) is None,
            },
    {
        proof {
            use_type_invariant(self);
        }
        let i = self.get_index();
        if self.list.is_empty() || i >= self.list.len() {
            None
        } else {
            Some(&self.list[i])
        }
    }

    /// The index of the entry that comes next.
    pub fn get_index(&self) -> (index: usize)
        ensures
            index == self@.index,
    {
        self.index
    }

    /// Moves on to the following entry.
    pub fn increment_index(&mut self)
        requires
            old(self)@.index < old(self)@.list.len(),
        ensures
            final(self)@ == advanced(old(self)@),
    {
        assert(self.index < self.list.len());
        self.index = self.get_index() + 1;
    }
}

/// The cursor just after its list was fetched.
pub open spec fn opened<T>(list: Seq<T>) -> CursorView<T> {
    CursorView { list, index: 0 }
}

/// The entry that comes next, if one is left.
pub open spec fn current<T>(cursor: CursorView<T>) -> Option<T> {
    if cursor.index < cursor.list.len() {
        Some(cursor.list[cursor.index as int])
    } else {
        None
    }
}

/// The cursor one entry further on.
pub open spec fn advanced<T>(cursor: CursorView<T>) -> CursorView<T> {
    CursorView { list: cursor.list, index: cursor.index + 1 }
}

/// The content of a cursor slot: nothing while the enumeration is closed.
pub open spec fn slot_view<T>(slot: Option<DbList<T>>) -> Option<CursorView<T>> {
    match slot {
        Some(cursor) => Some(cursor@),
        None => None,
    }
}

/// The list the backend sent, if it sent one.
pub open spec fn fetched_list<T>(fetched: Result<Vec<T>, AlexandriaSvcError>) -> Option<Seq<T>> {
    match fetched {
        Ok(list) => Some(list@),
        Err(_) => None,
    }
}

/// The status of opening an enumeration: it succeeds where the backend sent
/// its list and the slot's lock was free.
pub open spec fn open_status<T>(locked: bool, fetched: Option<Seq<T>>) -> nss_status {
    if locked && fetched is Some {
        nss_status::NSS_STATUS_SUCCESS
    } else {
        nss_status::NSS_STATUS_TRYAGAIN
    }
}

/// The slot after opening an enumeration under the slot's lock: a fresh
/// cursor over the list that was fetched, or the slot as it was where the
/// backend failed.
pub open spec fn open_slot<T>(before: Option<CursorView<T>>, fetched: Option<Seq<T>>) -> Option<
    CursorView<T>,
> {
    match fetched {
        Some(list) => Some(opened(list)),
        None => before,
    }
}

/// Opens the enumeration of one database. `lock` is the cursor slot, or
/// nothing where another caller holds its lock; `fetched` is the backend's
/// answer to the request for the full list.
///
/// Where the backend failed the slot is left alone, and where the lock is
/// held nothing can be done: both report "try again". Otherwise the slot gets
/// a fresh cursor at the start of the list, in place of any earlier one.
pub fn begin_enumeration<T>(
    lock: Option<&mut Option<DbList<T>>>,
    fetched: Result<Vec<T>, AlexandriaSvcError>,
) -> (status: nss_status)
    ensures
        status == open_status(lock is Some, fetched_list(fetched)),
        lock matches Some(slot) ==> slot_view(*final(slot)) == open_slot(
            slot_view(*slot),
            fetched_list(fetched),
        ),
{
    let entries = match fetched {
        Ok(entries) => entries,
        Err(_) => {
            return nss_status::NSS_STATUS_TRYAGAIN;
        },
    };
    match lock {
        Some(slot) => {
            *slot = Some(DbList::new(entries));
            nss_status::NSS_STATUS_SUCCESS
        },
        None => nss_status::NSS_STATUS_TRYAGAIN,
    }
}

/// The status of closing an enumeration: it succeeds where the slot's lock
/// was free.
pub open spec fn close_status(locked: bool) -> nss_status {
    if locked {
        nss_status::NSS_STATUS_SUCCESS
    } else {
        nss_status::NSS_STATUS_TRYAGAIN
    }
}

/// The slot after closing an enumeration under the slot's lock: empty,
/// whatever it held.
pub open spec fn close_slot<T>(before: Option<CursorView<T>>) -> Option<CursorView<T>> {
    None
}

/// Closes the enumeration of one database: the slot is emptied, whatever it
/// held. `lock` is the cursor slot, or nothing where another caller holds its
/// lock, which reports "try again".
pub fn end_enumeration<T>(lock: Option<&mut Option<DbList<T>>>) -> (status: nss_status)
    ensures
        status == close_status(lock is Some),
        lock matches Some(slot) ==> slot_view(*final(slot)) == close_slot(slot_view(*slot)),
{
    match lock {
        Some(slot) => {
            *slot = None;
            nss_status::NSS_STATUS_SUCCESS
        },
        None => nss_status::NSS_STATUS_TRYAGAIN,
    }
}

/// What a call for the next entry finds.
pub enum CursorOutcome<T> {
    /// The entry that comes next.
    Record(T),
    /// Every entry has been handed out.
    Exhausted,
    /// No cursor is there, and none could be made.
    NotOpen,
}

/// The list that an implicit open was given, if the backend sent one.
pub open spec fn reopened_list<T>(
    reopened: Option<Result<Vec<T>, AlexandriaSvcError>>,
) -> Option<Seq<T>> {
    match reopened {
        Some(Ok(list)) => Some(list@),
        _ => None,
    }
}

/// The cursor a call for the next entry works on: the one in the slot, or,
/// where the slot is empty, a fresh one over the list that was fetched for
/// this call.
pub open spec fn ready<T>(before: Option<CursorView<T>>, reopened: Option<Seq<T>>) -> Option<
    CursorView<T>,
> {
    match before {
        Some(cursor) => Some(cursor),
        None => match reopened {
            Some(list) => Some(opened(list)),
            None => None,
        },
    }
}

/// What a call for the next entry finds in a slot.
pub open spec fn next_outcome<T>(slot: Option<CursorView<T>>) -> CursorOutcome<T> {
    match slot {
        None => CursorOutcome::NotOpen,
        Some(cursor) => match current(cursor) {
            Some(entry) => CursorOutcome::Record(entry),
            None => CursorOutcome::Exhausted,
        },
    }
}

/// The slot after a call for the next entry: the cursor moves on only where
/// the entry it offered was written to the caller.
pub open spec fn next_slot<T>(slot: Option<CursorView<T>>, written: bool) -> Option<CursorView<T>> {
    match slot {
        Some(cursor) => if written && current(cursor) is Some {
            Some(advanced(cursor))
        } else {
            Some(cursor)
        },
        None => None,
    }
}

/// Whether a fetch of the full list has to be made before the next entry can
/// be asked for: the slot is empty.
pub fn must_reopen<T>(slot: &Option<DbList<T>>) -> (closed: bool)
    ensures
        closed == (slot_view(*slot) is None),
{
    slot.is_none()
}

/// Fills an empty slot with a fresh cursor where a list was fetched for it.
/// A slot that holds a cursor is left alone.
pub fn reopen<T>(slot: &mut Option<DbList<T>>, reopened: Option<Result<Vec<T>, AlexandriaSvcError>>)
    ensures
        slot_view(*final(slot)) == ready(slot_view(*old(slot)), reopened_list(reopened)),
{
    if slot.is_none() {
        match reopened {
            Some(Ok(list)) => {
                *slot = Some(DbList::new(list));
            },
            _ => {},
        }
    }
}

} // verus!
