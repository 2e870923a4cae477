//! Identifiers and small value types shared by the whole logger.

use vstd::prelude::*;
use crate::time::Timestamp;
use crate::text::str_eq;

verus! {

pub type CanId = u32;

pub type VehicleId = i64;

pub type ConnectionSessionId = i64;

#[derive(Debug, Clone, Copy, PartialEq, Eq, Structural)]
pub enum FuelType {
    Gasoline,
    Diesel,
    Hybrid,
    PlugInHybrid,
    Electric,
    Lpg,
    Other,
}

impl FuelType {
    /// The name stored in the database and in serialised data.
    pub open spec fn name(self) -> Seq<char> {
        match self {
            FuelType::Gasoline => "gasoline"@,
            FuelType::Diesel => "diesel"@,
            FuelType::Hybrid => "hybrid"@,
            FuelType::PlugInHybrid => "plug_in_hybrid"@,
            FuelType::Electric => "electric"@,
            FuelType::Lpg => "lpg"@,
            FuelType::Other => "other"@,
        }
    }

    pub fn as_str(self) -> (s: &'static str)
        ensures
            s@ == self.name(),
    {
        match self {
            FuelType::Gasoline => "gasoline",
            FuelType::Diesel => "diesel",
            FuelType::Hybrid => "hybrid",
            FuelType::PlugInHybrid => "plug_in_hybrid",
            FuelType::Electric => "electric",
            FuelType::Lpg => "lpg",
            FuelType::Other => "other",
        }
    }
}

impl FuelType {
    /// The fuel type with the given stored spelling, if any.
    pub open spec fn named(v: Seq<char>) -> Option<FuelType> {
        if v == "gasoline"@ {
            Some(FuelType::Gasoline)
        } else if v == "diesel"@ {
            Some(FuelType::Diesel)
        } else if v == "hybrid"@ {
            Some(FuelType::Hybrid)
        } else if v == "plug_in_hybrid"@ {
            Some(FuelType::PlugInHybrid)
        } else if v == "electric"@ {
            Some(FuelType::Electric)
        } else if v == "lpg"@ {
            Some(FuelType::Lpg)
        } else if v == "other"@ {
            Some(FuelType::Other)
        } else {
            None
        }
    }
}

/// Reads a stored fuel type; `None` for an unknown spelling.
pub fn parse_fuel(value: &str) -> (r: Option<FuelType>)
    ensures
        r == FuelType::named(value@),
{
    if str_eq(value, "gasoline") {
        Some(FuelType::Gasoline)
    } else if str_eq(value, "diesel") {
        Some(FuelType::Diesel)
    } else if str_eq(value, "hybrid") {
        Some(FuelType::Hybrid)
    } else if str_eq(value, "plug_in_hybrid") {
        Some(FuelType::PlugInHybrid)
    } else if str_eq(value, "electric") {
        Some(FuelType::Electric)
    } else if str_eq(value, "lpg") {
        Some(FuelType::Lpg)
    } else if str_eq(value, "other") {
        Some(FuelType::Other)
    } else {
        None
    }
}

/// Reading back a stored fuel type gives the same fuel type.
pub proof fn law_fuel_round_trip(x: FuelType)
    ensures
        FuelType::named(x.name()) == Some(x),
{
    reveal_strlit("gasoline");
    reveal_strlit("diesel");
    reveal_strlit("hybrid");
    reveal_strlit("plug_in_hybrid");
    reveal_strlit("electric");
    reveal_strlit("lpg");
    reveal_strlit("other");
    assert("gasoline"@.len() != "diesel"@.len());
    assert("gasoline"@.len() != "hybrid"@.len());
    assert("gasoline"@.len() != "plug_in_hybrid"@.len());
    assert("gasoline"@[0] != "electric"@[0]);
    assert("gasoline"@.len() != "lpg"@.len());
    assert("gasoline"@.len() != "other"@.len());
    assert("diesel"@[0] != "hybrid"@[0]);
    assert("diesel"@.len() != "plug_in_hybrid"@.len());
    assert("diesel"@.len() != "electric"@.len());
    assert("diesel"@.len() != "lpg"@.len());
    assert("diesel"@.len() != "other"@.len());
    assert("hybrid"@.len() != "plug_in_hybrid"@.len());
    assert("hybrid"@.len() != "electric"@.len());
    assert("hybrid"@.len() != "lpg"@.len());
    assert("hybrid"@.len() != "other"@.len());
    assert("plug_in_hybrid"@.len() != "electric"@.len());
    assert("plug_in_hybrid"@.len() != "lpg"@.len());
    assert("plug_in_hybrid"@.len() != "other"@.len());
    assert("electric"@.len() != "lpg"@.len());
    assert("electric"@.len() != "other"@.len());
    assert("lpg"@.len() != "other"@.len());
}

#[derive(Debug, Clone, Copy, PartialEq, Eq, Hash, Structural)]
pub enum SignalKind {
    CanId,
    Pid,
}

impl SignalKind {
    pub open spec fn name(self) -> Seq<char> {
        match self {
            SignalKind::CanId => "CAN_ID"@,
            SignalKind::Pid => "PID"@,
        }
    }

    pub fn as_str(self) -> (s: &'static str)
        ensures
            s@ == self.name(),
    {
        match self {
            SignalKind::CanId => "CAN_ID",
            SignalKind::Pid => "PID",
        }
    }
}

/// How to decode one signal: which CAN id or PID, and the formula applied to
/// the payload.
#[derive(Debug, Clone, PartialEq)]
pub struct SignalDefinition {
    pub kind: SignalKind,
    pub id: u32,
    pub name: String,
    pub unit: Option<String>,
    pub formula: String,
}

/// How often a CAN id or PID was seen, with its latest payload.
#[derive(Debug, Clone, PartialEq)]
pub struct CanIdObservation {
    pub id: CanId,
    pub raw_payload: Vec<u8>,
    pub last_seen: Timestamp,
    pub count: u64,
}

/// Some definition decodes the id.
pub open spec fn is_known(definitions: Seq<SignalDefinition>, id: CanId) -> bool {
    exists|i: int| 0 <= i < definitions.len() && (#[trigger] definitions[i]).id == id
}

/// The observations, in order, whose id no definition decodes.
pub open spec fn unknown_only(observations: Seq<CanIdObservation>, definitions: Seq<SignalDefinition>) -> Seq<CanIdObservation>
    decreases observations.len(),
{
    if observations.len() == 0 {
        observations
    } else {
        let rest = unknown_only(observations.drop_last(), definitions);
        if is_known(definitions, observations.last().id) {
            rest
        } else {
            rest.push(observations.last())
        }
    }
}

fn known_id(definitions: &[SignalDefinition], id: CanId) -> (b: bool)
    ensures
        b == is_known(definitions@, id),
{
    let mut i: usize = 0;
    while i < definitions.len()
        invariant
            i <= definitions@.len(),
            forall|k: int| 0 <= k < i ==> (#[trigger] definitions@[k]).id != id,
        decreases definitions.len() - i,
    {
        if definitions[i].id == id {
            return true;
        }
        i = i + 1;
    }
    false
}

/// Observed ids that still need a definition: `definitions` are those of
/// the observations' kind.
pub fn unknown_observations(observations: Vec<CanIdObservation>, definitions: &[SignalDefinition]) -> (r: Vec<CanIdObservation>)
    ensures
        r@ == unknown_only(observations@, definitions@),
{
    let ghost all = observations@;
    let n = observations.len();
    assert(all.len() == n);
    let mut r: Vec<CanIdObservation> = Vec::new();
    let mut rest = observations;
    let mut taken: usize = 0;
    while rest.len() > 0
        invariant
            all.len() <= usize::MAX,
            taken + rest@.len() == all.len(),
            rest@ == all.subrange(taken as int, all.len() as int),
            r@ == unknown_only(all.take(taken as int), definitions@),
        decreases rest@.len(),
    {
        let o = rest.remove(0);
        proof {
            assert(all.take(taken + 1).drop_last() =~= all.take(taken as int));
            assert(o == all[taken as int]);
            assert(rest@ =~= all.subrange(taken + 1, all.len() as int));
        }
        if !known_id(definitions, o.id) {
            r.push(o);
        }
        taken = taken + 1;
    }
    assert(all.take(all.len() as int) =~= all);
    r
}

} // verus!
