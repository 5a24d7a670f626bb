//! The one shared colour record, behind a reader/writer lock.

use crate::query::{apply_query_pairs, pairs_applied, pairs_view};
use crate::rgb_led::LogicalColor;
use crate::udp_ingest::{udp_updated, update_rgba_from_udp_msg};
use std::sync::{RwLock, RwLockWriteGuard};
use vstd::prelude::*;

verus! {

#[verifier::external_type_specification]
#[verifier::external_body]
#[verifier::reject_recursive_types(T)]
pub struct ExRwLock<T: ?Sized>(std::sync::RwLock<T>);

#[verifier::external_type_specification]
#[verifier::external_body]
#[verifier::reject_recursive_types(T)]
pub struct ExRwLockWriteGuard<'a, T: ?Sized + 'a>(std::sync::RwLockWriteGuard<'a, T>);

/// The colour that the holder of exclusive access sees behind its guard.
pub uninterp spec fn guarded(guard: RwLockWriteGuard<LogicalColor>) -> LogicalColor;

/// Calls `RwLock::new`.
#[verifier::external_body]
fn new_lock(initial: LogicalColor) -> RwLock<LogicalColor> {
    RwLock::new(initial)
}

/// Calls `RwLock::read` and copies the colour out; `None` where the lock is
/// poisoned. Nothing is claimed of the colour: another thread may have
/// written it.
#[verifier::external_body]
fn read_lock(lock: &RwLock<LogicalColor>) -> Option<LogicalColor> {
    match lock.read() {
        Ok(guard) => Some(*guard),
        Err(_) => None,
    }
}

/// Calls `RwLock::write`; `None` where the lock is poisoned.
#[verifier::external_body]
fn write_lock(lock: &RwLock<LogicalColor>) -> Option<RwLockWriteGuard<'_, LogicalColor>> {
    lock.write().ok()
}

/// Reads through a write guard (`Deref::deref`).
#[verifier::external_body]
fn guard_get(guard: &RwLockWriteGuard<LogicalColor>) -> (res: LogicalColor)
    ensures
        res == guarded(*guard),
{
    **guard
}

/// Writes through a write guard (`DerefMut::deref_mut`).
///
/// Claimed of it: the holder then sees what it wrote.
#[verifier::external_body]
fn guard_set(guard: &mut RwLockWriteGuard<LogicalColor>, value: LogicalColor)
    ensures
        guarded(*final(guard)) == value,
{
    **guard = value;
}

/// The lock is in a state that cannot be recovered: a holder failed while
/// holding it. Callers skip the request or the tick at hand.
#[derive(Clone, Copy, Debug, PartialEq, Eq, Structural)]
pub struct LockUnavailable;

/// A colour before and after one exclusive update.
#[derive(Clone, Copy, Debug, PartialEq, Eq, Structural)]
pub struct Committed {
    pub before: LogicalColor,
    pub after: LogicalColor,
}

/// Merges the pairs of a query into the colour behind a write guard.
pub fn merge_query(guard: &mut RwLockWriteGuard<LogicalColor>, pairs: &Vec<(Vec<u8>, Vec<u8>)>) -> (res:
    Committed)
    ensures
        res.before == guarded(*old(guard)),
        res.after == guarded(*final(guard)),
        res.after == pairs_applied(res.before, pairs_view(*pairs)),
{
    let before = guard_get(guard);
    let mut after = before;
    apply_query_pairs(pairs, &mut after);
    guard_set(guard, after);
    Committed { before, after }
}

/// Merges one datagram into the colour behind a write guard.
pub fn merge_udp_msg(guard: &mut RwLockWriteGuard<LogicalColor>, msg_arr: &[u8]) -> (res: Committed)
    ensures
        res.before == guarded(*old(guard)),
        res.after == guarded(*final(guard)),
        res.after == udp_updated(msg_arr@, res.before),
{
    let before = guard_get(guard);
    let mut after = before;
    update_rgba_from_udp_msg(msg_arr, &mut after);
    guard_set(guard, after);
    Committed { before, after }
}

/// A query merge for a given outcome of asking for exclusive access: the
/// merge behind the guard, which is released on return, or the failure where
/// access was not had.
pub fn commit_query_on(
    access: Option<RwLockWriteGuard<LogicalColor>>,
    pairs: &Vec<(Vec<u8>, Vec<u8>)>,
) -> (res: Result<Committed, LockUnavailable>)
    ensures
        match access {
            Some(guard) => res matches Ok(change) && change.before == guarded(guard)
                && change.after == pairs_applied(change.before, pairs_view(*pairs)),
            None => res == Err::<Committed, LockUnavailable>(LockUnavailable),
        },
{
    match access {
        Some(mut guard) => Ok(merge_query(&mut guard, pairs)),
        None => Err(LockUnavailable),
    }
}

/// A datagram merge for a given outcome of asking for exclusive access: the
/// merge behind the guard, which is released on return, or the failure where
/// access was not had.
pub fn commit_udp_msg_on(access: Option<RwLockWriteGuard<LogicalColor>>, msg_arr: &[u8]) -> (res:
    Result<Committed, LockUnavailable>)
    ensures
        match access {
            Some(guard) => res matches Ok(change) && change.before == guarded(guard)
                && change.after == udp_updated(msg_arr@, change.before),
            None => res == Err::<Committed, LockUnavailable>(LockUnavailable),
        },
{
    match access {
        Some(mut guard) => Ok(merge_udp_msg(&mut guard, msg_arr)),
        None => Err(LockUnavailable),
    }
}

/// The shared colour record. Any number of readers, or one writer.
///
/// The lock never leaves the record, and every method releases it before it
/// returns: no thread can ask for it while holding it.
pub struct ColorState {
    lock: RwLock<LogicalColor>,
}

impl ColorState {
    /// A record that holds `initial`.
    pub fn new(initial: LogicalColor) -> ColorState {
        ColorState { lock: new_lock(initial) }
    }

    /// The colour at this moment, whole: never part of one update and part
    /// of another.
    pub fn snapshot(&self) -> Result<LogicalColor, LockUnavailable> {
        match read_lock(&self.lock) {
            Some(color) => Ok(color),
            None => Err(LockUnavailable),
        }
    }

    /// Merges the pairs of a query into the record in one exclusive step.
    pub fn commit_query(&self, pairs: &Vec<(Vec<u8>, Vec<u8>)>) -> (res: Result<
        Committed,
        LockUnavailable,
    >)
        ensures
            res matches Ok(change) ==> change.after == pairs_applied(
                change.before,
                pairs_view(*pairs),
            ),
    {
        commit_query_on(write_lock(&self.lock), pairs)
    }

    /// Merges one datagram into the record in one exclusive step. An empty
    /// datagram is dropped without touching the lock.
    pub fn commit_udp_msg(&self, msg_arr: &[u8]) -> (res: Result<Option<Committed>, LockUnavailable>)
        ensures
            msg_arr@.len() == 0 ==> res == Ok::<Option<Committed>, LockUnavailable>(None),
            msg_arr@.len() > 0 ==> match res {
                Ok(Some(change)) => change.after == udp_updated(msg_arr@, change.before),
                Ok(None) => false,
                Err(_) => true,
            },
    {
        if msg_arr.len() < 1 {
            return Ok(None);
        }
        match commit_udp_msg_on(write_lock(&self.lock), msg_arr) {
            Ok(change) => Ok(Some(change)),
            Err(failure) => Err(failure),
        }
    }
}

} // verus!
