//! The access state of the time-series log store: whether it may be
//! written, which vehicle and connection session new frames belong to, and
//! which vehicle reads are scoped to.  The database connection itself is a
//! parameter; all queries run through it outside this module.

use vstd::prelude::*;
use std::collections::HashMap;
use crate::domain::{SignalDefinition, SignalKind};

verus! {

#[derive(Debug, Clone, Copy, PartialEq, Eq, Structural)]
pub enum ScopeError {
    /// The store was opened read-only.
    ReadOnly,
    /// No vehicle was selected for reading.
    NoVehicleSelected,
}

impl ScopeError {
    pub open spec fn message_text(self) -> Seq<char> {
        match self {
            ScopeError::ReadOnly => "DuckDBログは読み取り専用のため健康スコアを書き込めません"@,
            ScopeError::NoVehicleSelected => "閲覧対象車両が選択されていません"@,
        }
    }

    pub fn message(&self) -> (m: String)
        ensures
            m@ == self.message_text(),
    {
        match self {
            ScopeError::ReadOnly => "DuckDBログは読み取り専用のため健康スコアを書き込めません".to_owned(),
            ScopeError::NoVehicleSelected => "閲覧対象車両が選択されていません".to_owned(),
        }
    }
}

/// The log store: a connection with its write permission and scopes.
pub struct DuckdbCanFrameRepository<C> {
    connection: C,
    read_only: bool,
    capture_context: Option<(i64, i64)>,
    vehicle_scope: Option<i64>,
}

/// Write permission, the vehicle and session new frames belong to, and the
/// vehicle reads are limited to.
pub struct StoreScope {
    pub read_only: bool,
    pub capture_context: Option<(i64, i64)>,
    pub vehicle_scope: Option<i64>,
}

impl<C> View for DuckdbCanFrameRepository<C> {
    type V = StoreScope;

    closed spec fn view(&self) -> StoreScope {
        StoreScope {
            read_only: self.read_only,
            capture_context: self.capture_context,
            vehicle_scope: self.vehicle_scope,
        }
    }
}

impl<C> DuckdbCanFrameRepository<C> {
    pub closed spec fn connection_spec(&self) -> C {
        self.connection
    }

    /// Wraps a freshly opened connection; no vehicle is selected yet.
    pub fn from_connection(connection: C, read_only: bool) -> (r: Self)
        ensures
            r@ == (StoreScope { read_only, capture_context: None, vehicle_scope: None }),
            r.connection_spec() == connection,
    {
        DuckdbCanFrameRepository { connection, read_only, capture_context: None, vehicle_scope: None }
    }

    pub fn connection(&self) -> (c: &C)
        ensures
            *c == self.connection_spec(),
    {
        &self.connection
    }

    pub fn is_read_only(&self) -> (b: bool)
        ensures
            b == self@.read_only,
    {
        self.read_only
    }

    /// Selects the only vehicle and session to which subsequent writes may
    /// belong; reads are scoped to the same vehicle.
    pub fn set_capture_context(&mut self, vehicle_id: i64, connection_session_id: i64)
        ensures
            final(self)@ == (StoreScope {
                capture_context: Some((vehicle_id, connection_session_id)),
                vehicle_scope: Some(vehicle_id),
                ..old(self)@
            }),
            final(self).connection_spec() == old(self).connection_spec(),
    {
        self.capture_context = Some((vehicle_id, connection_session_id));
        self.vehicle_scope = Some(vehicle_id);
    }

    /// Stops accepting frames; the read scope is kept.
    pub fn clear_capture_context(&mut self)
        ensures
            final(self)@ == (StoreScope { capture_context: None, ..old(self)@ }),
            final(self).connection_spec() == old(self).connection_spec(),
    {
        self.capture_context = None;
    }

    pub fn capture_context(&self) -> (c: Option<(i64, i64)>)
        ensures
            c == self@.capture_context,
    {
        self.capture_context
    }

    /// Scopes reads to `vehicle_id`; where frames are written is unchanged.
    pub fn select_vehicle(&mut self, vehicle_id: i64)
        ensures
            final(self)@ == (StoreScope { vehicle_scope: Some(vehicle_id), ..old(self)@ }),
            final(self).connection_spec() == old(self).connection_spec(),
    {
        self.vehicle_scope = Some(vehicle_id);
    }

    /// The vehicle reads are scoped to.
    pub fn vehicle_scope(&self) -> (r: Result<i64, ScopeError>)
        ensures
            match self@.vehicle_scope {
                Some(v) => r == Ok::<i64, ScopeError>(v),
                None => r == Err::<i64, ScopeError>(ScopeError::NoVehicleSelected),
            },
    {
        match self.vehicle_scope {
            Some(v) => Ok(v),
            None => Err(ScopeError::NoVehicleSelected),
        }
    }

    /// Refuses writes to a read-only store.
    pub fn writable(&self) -> (r: Result<(), ScopeError>)
        ensures
            r is Ok <==> !self@.read_only,
            r is Err ==> r == Err::<(), ScopeError>(ScopeError::ReadOnly),
    {
        if self.read_only {
            Err(ScopeError::ReadOnly)
        } else {
            Ok(())
        }
    }
}

/// The key under which a signal definition is looked up: its kind and id.
pub open spec fn signal_key_of(kind: SignalKind, id: u32) -> u64 {
    ((match kind {
        SignalKind::CanId => 0int,
        SignalKind::Pid => 1int,
    }) * 0x1_0000_0000 + id as int) as u64
}

pub fn signal_key(kind: SignalKind, id: u32) -> (k: u64)
    ensures
        k == signal_key_of(kind, id),
{
    let tag: u64 = match kind {
        SignalKind::CanId => 0,
        SignalKind::Pid => 1,
    };
    tag * 0x1_0000_0000u64 + id as u64
}

/// Different signals have different keys.
pub proof fn law_signal_keys_distinct(k1: SignalKind, i1: u32, k2: SignalKind, i2: u32)
    ensures
        signal_key_of(k1, i1) == signal_key_of(k2, i2) ==> k1 == k2 && i1 == i2,
{
}

/// Definitions by key; a later definition with the same key wins.
pub open spec fn definitions_by_key(defs: Seq<SignalDefinition>) -> Map<u64, SignalDefinition>
    decreases defs.len(),
{
    if defs.len() == 0 {
        Map::empty()
    } else {
        definitions_by_key(defs.drop_last()).insert(
            signal_key_of(defs.last().kind, defs.last().id),
            defs.last(),
        )
    }
}

/// Indexes signal definitions by kind and id.
pub fn definition_map(definitions: Vec<SignalDefinition>) -> (m: HashMap<u64, SignalDefinition>)
    ensures
        m@ == definitions_by_key(definitions@),
{
    let mut m: HashMap<u64, SignalDefinition> = HashMap::new();
    let ghost all = definitions@;
    let mut rest = definitions;
    let mut taken: usize = 0;
    assert(all.len() == rest.len());
    while rest.len() > 0
        invariant
            all.len() <= usize::MAX,
            taken + rest@.len() == all.len(),
            rest@ == all.subrange(taken as int, all.len() as int),
            m@ == definitions_by_key(all.take(taken as int)),
        decreases rest@.len(),
    {
        let d = rest.remove(0);
        let key = signal_key(d.kind, d.id);
        proof {
            assert(all.take(taken + 1).drop_last() =~= all.take(taken as int));
            assert(d == all[taken as int]);
            assert(rest@ =~= all.subrange(taken + 1, all.len() as int));
        }
        m.insert(key, d);
        taken = taken + 1;
    }
    assert(all.take(all.len() as int) =~= all);
    m
}

} // verus!
