//! The PID definitions every new master database starts with: the
//! standard Mode 01 signals read on the BRZ / 86.  Seeding never replaces a
//! definition the user already has for the same PID.

use vstd::prelude::*;
use crate::domain::{SignalDefinition, SignalKind};

verus! {

/// PID, name, unit and formula of each builtin definition, in order.
pub open spec fn builtin_pid_table() -> Seq<(u32, Seq<char>, Seq<char>, Seq<char>)> {
    seq![
        (0x04u32, "Calculated engine load"@, "%"@, "A*100/255"@),
        (0x05u32, "Engine coolant temperature"@, "degC"@, "A-40"@),
        (0x06u32, "Short term fuel trim bank 1"@, "%"@, "A*100/128-100"@),
        (0x07u32, "Long term fuel trim bank 1"@, "%"@, "A*100/128-100"@),
        (0x0Bu32, "Intake manifold absolute pressure"@, "kPa"@, "A"@),
        (0x0Cu32, "Engine RPM"@, "rpm"@, "((A*256)+B)/4"@),
        (0x0Du32, "Vehicle speed"@, "km/h"@, "A"@),
        (0x0Eu32, "Timing advance"@, "deg"@, "A/2-64"@),
        (0x0Fu32, "Intake air temperature"@, "degC"@, "A-40"@),
        (0x10u32, "Mass air flow rate"@, "g/s"@, "((A*256)+B)/100"@),
        (0x11u32, "Throttle position"@, "%"@, "A*100/255"@),
        (0x1Fu32, "Run time since engine start"@, "s"@, "(A*256)+B"@),
        (0x21u32, "Distance with MIL on"@, "km"@, "(A*256)+B"@),
        (0x2Fu32, "Fuel tank level input"@, "%"@, "A*100/255"@),
        (0x31u32, "Distance since DTCs cleared"@, "km"@, "(A*256)+B"@),
        (0x33u32, "Barometric pressure"@, "kPa"@, "A"@),
        (0x3Cu32, "Catalyst temperature bank 1 sensor 1"@, "degC"@, "((A*256)+B)/10-40"@),
        (0x42u32, "Control module voltage"@, "V"@, "((A*256)+B)/1000"@),
        (0x43u32, "Absolute load value"@, "%"@, "((A*256)+B)*100/255"@),
        (0x45u32, "Relative throttle position"@, "%"@, "A*100/255"@),
        (0x46u32, "Ambient air temperature"@, "degC"@, "A-40"@),
        (0x47u32, "Absolute throttle position B"@, "%"@, "A*100/255"@),
        (0x49u32, "Accelerator pedal position D"@, "%"@, "A*100/255"@),
        (0x4Au32, "Accelerator pedal position E"@, "%"@, "A*100/255"@),
        (0x4Cu32, "Commanded throttle actuator"@, "%"@, "A*100/255"@),
        (0x5Cu32, "Engine oil temperature"@, "degC"@, "A-40"@),
        (0xA6u32, "Odometer"@, "km"@, "((A*16777216)+(B*65536)+(C*256)+D)/10"@),
    ]
}

/// The definition built from entry `i` of the table.
pub open spec fn matches_builtin(d: SignalDefinition, i: int) -> bool {
    let e = builtin_pid_table()[i];
    &&& d.kind == SignalKind::Pid
    &&& d.id == e.0
    &&& d.name@ == e.1
    &&& d.unit matches Some(u) && u@ == e.2
    &&& d.formula@ == e.3
}

fn pid(id: u32, name: &str, unit: &str, formula: &str) -> (d: SignalDefinition)
    ensures
        d.kind == SignalKind::Pid,
        d.id == id,
        d.name@ == name@,
        d.unit matches Some(u) && u@ == unit@,
        d.formula@ == formula@,
{
    SignalDefinition {
        kind: SignalKind::Pid,
        id,
        name: name.to_owned(),
        unit: Some(unit.to_owned()),
        formula: formula.to_owned(),
    }
}

/// The builtin PID definitions, in table order.
pub fn builtin_pid_definitions() -> (v: Vec<SignalDefinition>)
    ensures
        v@.len() == builtin_pid_table().len(),
        forall|i: int| 0 <= i < v@.len() ==> matches_builtin(#[trigger] v@[i], i),
{
    let mut v: Vec<SignalDefinition> = Vec::new();
    v.push(pid(0x04, "Calculated engine load", "%", "A*100/255"));
    v.push(pid(0x05, "Engine coolant temperature", "degC", "A-40"));
    v.push(pid(0x06, "Short term fuel trim bank 1", "%", "A*100/128-100"));
    v.push(pid(0x07, "Long term fuel trim bank 1", "%", "A*100/128-100"));
    v.push(pid(0x0B, "Intake manifold absolute pressure", "kPa", "A"));
    v.push(pid(0x0C, "Engine RPM", "rpm", "((A*256)+B)/4"));
    v.push(pid(0x0D, "Vehicle speed", "km/h", "A"));
    v.push(pid(0x0E, "Timing advance", "deg", "A/2-64"));
    v.push(pid(0x0F, "Intake air temperature", "degC", "A-40"));
    v.push(pid(0x10, "Mass air flow rate", "g/s", "((A*256)+B)/100"));
    v.push(pid(0x11, "Throttle position", "%", "A*100/255"));
    v.push(pid(0x1F, "Run time since engine start", "s", "(A*256)+B"));
    v.push(pid(0x21, "Distance with MIL on", "km", "(A*256)+B"));
    v.push(pid(0x2F, "Fuel tank level input", "%", "A*100/255"));
    v.push(pid(0x31, "Distance since DTCs cleared", "km", "(A*256)+B"));
    v.push(pid(0x33, "Barometric pressure", "kPa", "A"));
    v.push(pid(0x3C, "Catalyst temperature bank 1 sensor 1", "degC", "((A*256)+B)/10-40"));
    v.push(pid(0x42, "Control module voltage", "V", "((A*256)+B)/1000"));
    v.push(pid(0x43, "Absolute load value", "%", "((A*256)+B)*100/255"));
    v.push(pid(0x45, "Relative throttle position", "%", "A*100/255"));
    v.push(pid(0x46, "Ambient air temperature", "degC", "A-40"));
    v.push(pid(0x47, "Absolute throttle position B", "%", "A*100/255"));
    v.push(pid(0x49, "Accelerator pedal position D", "%", "A*100/255"));
    v.push(pid(0x4A, "Accelerator pedal position E", "%", "A*100/255"));
    v.push(pid(0x4C, "Commanded throttle actuator", "%", "A*100/255"));
    v.push(pid(0x5C, "Engine oil temperature", "degC", "A-40"));
    v.push(pid(0xA6, "Odometer", "km", "((A*16777216)+(B*65536)+(C*256)+D)/10"));
    v
}

/// Some definition in `s` is for the given kind and id.
pub open spec fn defines(s: Seq<SignalDefinition>, kind: SignalKind, id: u32) -> bool {
    exists|i: int| 0 <= i < s.len() && (#[trigger] s[i]).kind == kind && s[i].id == id
}

/// `existing` with each of `added` appended whose kind and id are not yet
/// defined.
pub open spec fn seeded(existing: Seq<SignalDefinition>, added: Seq<SignalDefinition>) -> Seq<SignalDefinition>
    decreases added.len(),
{
    if added.len() == 0 {
        existing
    } else {
        let before = seeded(existing, added.drop_last());
        if defines(before, added.last().kind, added.last().id) {
            before
        } else {
            before.push(added.last())
        }
    }
}

fn copy_definition(d: &SignalDefinition) -> (c: SignalDefinition)
    ensures
        c == *d,
{
    SignalDefinition {
        kind: d.kind,
        id: d.id,
        name: d.name.clone(),
        unit: match &d.unit {
            Some(u) => Some(u.clone()),
            None => None,
        },
        formula: d.formula.clone(),
    }
}

fn is_defined(s: &Vec<SignalDefinition>, kind: SignalKind, id: u32) -> (b: bool)
    ensures
        b == defines(s@, kind, id),
{
    let mut i: usize = 0;
    while i < s.len()
        invariant
            i <= s@.len(),
            forall|k: int| 0 <= k < i ==> !((#[trigger] s@[k]).kind == kind && s@[k].id == id),
        decreases s.len() - i,
    {
        if s[i].kind == kind && s[i].id == id {
            return true;
        }
        i = i + 1;
    }
    false
}

/// Adds the builtin definitions to the stored ones, skipping every PID
/// that already has a definition.
pub fn seed_builtin_definitions(existing: Vec<SignalDefinition>) -> (v: Vec<SignalDefinition>)
    ensures
        ({
            let b = builtin_pid_table();
            &&& v@.len() <= existing@.len() + b.len()
            &&& v@.take(existing@.len() as int) == existing@
            &&& forall|i: int| 0 <= i < b.len() ==> defines(v@, SignalKind::Pid, #[trigger] b[i].0)
        }),
        exists|added: Seq<SignalDefinition>|
            added.len() == builtin_pid_table().len() && (forall|i: int|
                0 <= i < added.len() ==> matches_builtin(#[trigger] added[i], i)) && v@ == seeded(
                existing@,
                added,
            ),
{
    let builtins = builtin_pid_definitions();
    let ghost added = builtins@;
    let ghost start = existing@;
    let mut v = existing;
    let mut i: usize = 0;
    while i < builtins.len()
        invariant
            i <= builtins@.len(),
            added == builtins@,
            added.len() == builtin_pid_table().len(),
            forall|k: int| 0 <= k < added.len() ==> matches_builtin(#[trigger] added[k], k),
            v@ == seeded(start, added.take(i as int)),
            v@.len() <= start.len() + i,
            v@.take(start.len() as int) == start,
            v@.len() >= start.len(),
            forall|k: int| 0 <= k < i ==> defines(v@, SignalKind::Pid, #[trigger] added[k].id),
        decreases builtins.len() - i,
    {
        let d = &builtins[i];
        proof {
            assert(added.take(i + 1).drop_last() =~= added.take(i as int));
            assert(added.take(i + 1).last() == added[i as int]);
        }
        let ghost before = v@;
        if !is_defined(&v, d.kind, d.id) {
            v.push(copy_definition(d));
            proof {
                assert(v@.take(start.len() as int) =~= before.take(start.len() as int));
                assert forall|k: int| 0 <= k <= i implies defines(v@, SignalKind::Pid, #[trigger] added[k].id) by {
                    if k < i {
                        let j = choose|j: int| 0 <= j < before.len() && (#[trigger] before[j]).kind
                            == SignalKind::Pid && before[j].id == added[k].id;
                        assert(v@[j] == before[j]);
                    } else {
                        assert(v@[before.len() as int] == added[i as int]);
                    }
                }
            }
        }
        i = i + 1;
    }
    assert(added.take(added.len() as int) =~= added);
    proof {
        assert forall|k: int| 0 <= k < builtin_pid_table().len() implies defines(v@, SignalKind::Pid, #[trigger] builtin_pid_table()[k].0) by {
            assert(added[k].id == builtin_pid_table()[k].0);
            assert(defines(v@, SignalKind::Pid, added[k].id));
        }
    }
    v
}

} // verus!
