//! Process-wide shared data behind a non-blocking lock discipline.
//!
//! [`SharedData`] is a named, lock-protected text blob.  Reads return
//! the current value or report "unavailable"; writes report success or
//! failure; neither ever blocks the caller: an acquisition that would
//! have to wait fails immediately instead of queuing.  Multiple
//! concurrent readers are allowed, at most one writer, and a writer
//! excludes all readers for its duration — those guarantees are the
//! reader-writer lock's own; this module only decides from the plain
//! success-or-failure answers the lock hands back.

use vstd::prelude::*;

verus! {

#[verifier::external_type_specification]
#[verifier::external_body]
#[verifier::reject_recursive_types(T)]
pub struct ExRwLock<T: ?Sized>(std::sync::RwLock<T>);

#[verifier::external_type_specification]
#[verifier::external_body]
#[verifier::reject_recursive_types(T)]
pub struct ExRwLockReadGuard<'a, T: ?Sized>(std::sync::RwLockReadGuard<'a, T>);

/// Relies on std::sync::RwLock::new: wraps the value in an unlocked lock.
/// Nothing is claimed of the lock's contents, which this crate never
/// observes except through the accessors below.
#[verifier::external_body]
fn new_lock(value: String) -> std::sync::RwLock<String> {
    std::sync::RwLock::new(value)
}

/// Relies on std::sync::RwLock::try_read: returns a shared guard when
/// no writer holds or awaits the lock, and fails immediately otherwise.
/// Whether it succeeds depends on concurrent callers, so nothing is
/// claimed of the outcome.
#[verifier::external_body]
fn lock_try_read<'a>(lock: &'a std::sync::RwLock<String>) -> Option<
    std::sync::RwLockReadGuard<'a, String>,
> {
    match lock.try_read() {
        Ok(guard) => Some(guard),
        Err(_) => None,
    }
}

/// Relies on std::sync::RwLock::try_write: when the lock is free it
/// appends `data` to the guarded text under the exclusive guard, whose
/// life ends inside this call, and reports true; when a reader or
/// writer holds the lock it reports false immediately.  Whether the
/// lock is free depends on concurrent callers, so nothing is claimed
/// of the outcome.
#[verifier::external_body]
fn lock_try_append(lock: &std::sync::RwLock<String>, data: &str) -> bool {
    match lock.try_write() {
        Ok(mut guard) => {
            guard.push_str(data);
            true
        },
        Err(_) => false,
    }
}

/// Relies on String::clone through std::sync::RwLockReadGuard's Deref:
/// returns a copy of the guarded text.
#[verifier::external_body]
fn guard_text(guard: &std::sync::RwLockReadGuard<'_, String>) -> String {
    (**guard).clone()
}

/// A lock-protected blob of text, shared between the supervisor's
/// callers.  An explicitly constructed value, passed where it is
/// needed, so that independent instances can coexist.
pub struct SharedData {
    cell: std::sync::RwLock<String>,
}

/// Shared read access to a [`SharedData`].  While a `ReadAccess` is
/// alive, further reads still succeed, but every write attempt on the
/// same data fails immediately; dropping it releases the lock.
pub struct ReadAccess<'a> {
    guard: std::sync::RwLockReadGuard<'a, String>,
}

impl<'a> ReadAccess<'a> {
    /// A copy of the text this access holds the lock over.
    pub fn text(&self) -> String {
        guard_text(&self.guard)
    }
}

impl SharedData {
    /// A new shared blob holding empty text.
    pub fn new() -> SharedData {
        SharedData { cell: new_lock(String::new()) }
    }

    /// Attempts to take shared read access without blocking: `None`
    /// when a writer currently holds the lock.
    pub fn read_access(&self) -> Option<ReadAccess<'_>> {
        match lock_try_read(&self.cell) {
            Some(guard) => Some(ReadAccess { guard }),
            None => None,
        }
    }
}

/// Reads the shared data.  Returns the current text, or `None` when the
/// lock is held by a writer — the attempt fails immediately rather than
/// waiting.
pub fn read_data(data: &SharedData) -> Option<String> {
    match lock_try_read(&data.cell) {
        Some(guard) => Some(guard_text(&guard)),
        None => None,
    }
}

/// Appends to the shared data.  Returns `true` when the write was
/// performed, `false` when the lock was busy — the attempt fails
/// immediately rather than waiting, and a refused write changes
/// nothing.
pub fn write_data(data: &SharedData, text: &str) -> bool {
    lock_try_append(&data.cell, text)
}

} // verus!
