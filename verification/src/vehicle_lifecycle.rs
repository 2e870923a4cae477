//! Removing a registered vehicle: a deleted vehicle stays restorable for
//! thirty days and is purged afterwards; deleting it for good at once
//! requires typing its name exactly.

use vstd::prelude::*;
use crate::text::{chars_of, str_eq, string_from_chars, trim, trim_chars};
use crate::time::{timestamp_in_range, Timestamp, NANOS_PER_DAY};

verus! {

/// Days a deleted vehicle can still be restored.
pub const RESTORE_DAYS: i128 = 30;

/// When a vehicle was deleted and when it is purged; both absent for a
/// vehicle in use.
#[derive(Debug, Clone, Copy, PartialEq, Eq, Structural)]
pub struct DeletionState {
    pub deleted_at: Option<Timestamp>,
    pub purge_after: Option<Timestamp>,
}

#[derive(Debug, Clone, Copy, PartialEq, Eq, Structural)]
pub enum VehicleError {
    /// The display name is blank.
    NameRequired,
    /// The vehicle is already deleted.
    AlreadyDeleted,
    /// The vehicle is not deleted, or its restore period is over.
    NotRestorable,
    /// The typed name is not the vehicle's name.
    NameMismatch,
}

impl VehicleError {
    pub open spec fn message_text(self) -> Seq<char> {
        match self {
            VehicleError::NameRequired => "表示名は必須です"@,
            VehicleError::AlreadyDeleted => "対象車両が見つからないか削除済みです"@,
            VehicleError::NotRestorable => "復元期限内の削除済み車両が見つかりません"@,
            VehicleError::NameMismatch => "完全削除には車両名の正確な再入力が必要です"@,
        }
    }

    pub fn message(&self) -> (m: String)
        ensures
            m@ == self.message_text(),
    {
        match self {
            VehicleError::NameRequired => "表示名は必須です".to_owned(),
            VehicleError::AlreadyDeleted => "対象車両が見つからないか削除済みです".to_owned(),
            VehicleError::NotRestorable => "復元期限内の削除済み車両が見つかりません".to_owned(),
            VehicleError::NameMismatch => "完全削除には車両名の正確な再入力が必要です".to_owned(),
        }
    }
}

/// A vehicle in use.
pub open spec fn in_use() -> DeletionState {
    DeletionState { deleted_at: None, purge_after: None }
}

/// The end of the restore period of a vehicle deleted at `now`.
pub open spec fn purge_time(now: Timestamp) -> int {
    now@ + RESTORE_DAYS * NANOS_PER_DAY
}

/// Deletes a vehicle at `now`; it can be restored until thirty days later.
pub fn soft_delete(state: DeletionState, now: Timestamp) -> (r: Result<DeletionState, VehicleError>)
    requires
        timestamp_in_range(purge_time(now)),
    ensures
        match r {
            Ok(s) => state.deleted_at is None && s.deleted_at == Some(now) && (s.purge_after matches Some(
                p,
            ) && p@ == purge_time(now)),
            Err(e) => state.deleted_at is Some && e == VehicleError::AlreadyDeleted,
        },
{
    if state.deleted_at.is_some() {
        return Err(VehicleError::AlreadyDeleted);
    }
    let purge = Timestamp::from_nanos_in_range(now.nanos() + RESTORE_DAYS * NANOS_PER_DAY);
    Ok(DeletionState { deleted_at: Some(now), purge_after: Some(purge) })
}

/// The vehicle is deleted and its restore period has not ended at `now`.
pub open spec fn restorable(state: DeletionState, now: Timestamp) -> bool {
    state.deleted_at is Some && (state.purge_after matches Some(p) && p@ > now@)
}

/// Brings a deleted vehicle back while its restore period lasts.
pub fn restore(state: DeletionState, now: Timestamp) -> (r: Result<DeletionState, VehicleError>)
    ensures
        match r {
            Ok(s) => restorable(state, now) && s == in_use(),
            Err(e) => !restorable(state, now) && e == VehicleError::NotRestorable,
        },
{
    match (state.deleted_at, state.purge_after) {
        (Some(_), Some(p)) => {
            if p.nanos() > now.nanos() {
                Ok(DeletionState { deleted_at: None, purge_after: None })
            } else {
                Err(VehicleError::NotRestorable)
            }
        },
        _ => Err(VehicleError::NotRestorable),
    }
}

/// The restore period of a deleted vehicle is over at `now`.
pub open spec fn purge_due_at(state: DeletionState, now: Timestamp) -> bool {
    state.purge_after matches Some(p) && p@ <= now@
}

pub fn purge_due(state: DeletionState, now: Timestamp) -> (b: bool)
    ensures
        b == purge_due_at(state, now),
{
    match state.purge_after {
        Some(p) => p.nanos() <= now.nanos(),
        None => false,
    }
}

/// Deleting a vehicle for good needs its display name typed exactly.
pub fn confirm_permanent_delete(name: &str, confirmation: &str) -> (r: Result<(), VehicleError>)
    ensures
        r is Ok <==> confirmation@ == name@,
        r is Err ==> r == Err::<(), VehicleError>(VehicleError::NameMismatch),
{
    if str_eq(confirmation, name) {
        Ok(())
    } else {
        Err(VehicleError::NameMismatch)
    }
}

/// The name a vehicle is registered under: its display name without the
/// surrounding white space, which must leave something.
pub fn registered_name(display_name: &str) -> (r: Result<String, VehicleError>)
    ensures
        match r {
            Ok(n) => trim(display_name@).len() > 0 && n@ == trim(display_name@),
            Err(e) => trim(display_name@).len() == 0 && e == VehicleError::NameRequired,
        },
{
    let chars = chars_of(display_name);
    let t = trim_chars(chars.as_slice());
    if t.len() == 0 {
        Err(VehicleError::NameRequired)
    } else {
        Ok(string_from_chars(t.as_slice()))
    }
}

/// At every moment after its deletion a deleted vehicle is either still
/// restorable or due to be purged, never both.
pub proof fn law_restore_or_purge(deleted: DeletionState, now: Timestamp, later: Timestamp)
    requires
        deleted.deleted_at == Some(now),
        (deleted.purge_after matches Some(p) && p@ == purge_time(now)),
    ensures
        restorable(deleted, later) != purge_due_at(deleted, later),
        restorable(deleted, later) <==> later@ < purge_time(now),
{
}

} // verus!
