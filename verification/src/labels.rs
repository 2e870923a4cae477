//! How identifiers and payloads are written on screen: upper-case
//! hexadecimal with a `0x` prefix, padded to a minimum number of digits.

use vstd::prelude::*;
use crate::domain::SignalKind;
use crate::health::ScoreDomain;
use crate::connection::valid_vin;
use crate::text::{chars_of, decimal, push_decimal, push_str, string_from_chars};

verus! {

/// The upper-case hexadecimal digit for `d < 16`.
pub open spec fn upper_hex_digit(d: nat) -> char {
    if d < 10 {
        (48 + d) as char
    } else {
        (55 + d) as char
    }
}

/// Upper-case hexadecimal spelling of `n` without leading zeros.
pub open spec fn upper_hex(n: nat) -> Seq<char>
    decreases n,
{
    if n < 16 {
        seq![upper_hex_digit(n)]
    } else {
        upper_hex(n / 16).push(upper_hex_digit(n % 16))
    }
}

/// `s` with zeros in front up to `width` characters (`{:0width$}`).
pub open spec fn zero_padded(s: Seq<char>, width: nat) -> Seq<char> {
    if s.len() >= width {
        s
    } else {
        Seq::new((width - s.len()) as nat, |i: int| '0') + s
    }
}

/// `format!("{:0width$X}", n)`.
pub open spec fn hex_field(n: nat, width: nat) -> Seq<char> {
    zero_padded(upper_hex(n), width)
}

fn push_upper_hex(out: &mut Vec<char>, n: u32)
    ensures
        final(out)@ == old(out)@ + upper_hex(n as nat),
    decreases n,
{
    let ghost before = out@;
    if n >= 16 {
        push_upper_hex(out, n / 16);
    }
    let d = (n % 16) as u8;
    let c = if d < 10 { (48u8 + d) as char } else { (55u8 + d) as char };
    out.push(c);
    proof {
        if n >= 16 {
            assert(out@ =~= before + upper_hex(n as nat / 16).push(upper_hex_digit(n as nat % 16)));
        } else {
            assert(out@ =~= before + seq![upper_hex_digit(n as nat)]);
        }
    }
}

fn push_hex_field(out: &mut Vec<char>, n: u32, width: usize)
    ensures
        final(out)@ == old(out)@ + hex_field(n as nat, width as nat),
{
    let ghost before = out@;
    let mut digits: Vec<char> = Vec::new();
    push_upper_hex(&mut digits, n);
    assert(digits@ =~= upper_hex(n as nat));
    if digits.len() < width {
        let pad = width - digits.len();
        let mut k: usize = 0;
        while k < pad
            invariant
                k <= pad,
                out@ == before + Seq::new(k as nat, |i: int| '0'),
            decreases pad - k,
        {
            out.push('0');
            assert(Seq::new((k + 1) as nat, |i: int| '0') =~= Seq::new(k as nat, |i: int| '0').push(
                '0',
            ));
            k = k + 1;
        }
    }
    let ghost mid = out@;
    let mut j: usize = 0;
    while j < digits.len()
        invariant
            j <= digits@.len(),
            out@ == mid + digits@.take(j as int),
        decreases digits.len() - j,
    {
        out.push(digits[j]);
        assert(digits@.take(j + 1) =~= digits@.take(j as int).push(digits@[j as int]));
        j = j + 1;
    }
    assert(digits@.take(digits@.len() as int) =~= digits@);
    assert(out@ =~= before + hex_field(n as nat, width as nat));
}

pub open spec fn can_id_text(id: u32) -> Seq<char> {
    "0x"@ + hex_field(id as nat, 3)
}

/// A CAN identifier as listed in the signal manager, such as `0x7E8`.
pub fn format_can_id(id: u32) -> (s: String)
    ensures
        s@ == can_id_text(id),
{
    let mut v: Vec<char> = Vec::new();
    push_str(&mut v, "0x");
    push_hex_field(&mut v, id, 3);
    string_from_chars(&v)
}

pub open spec fn signal_id_text(kind: SignalKind, id: u32) -> Seq<char> {
    match kind {
        SignalKind::Pid => "0x"@ + hex_field(id as nat, 2),
        SignalKind::CanId => "0x"@ + hex_field(id as nat, 3),
    }
}

/// A signal's identifier as shown next to its chart: PIDs with two digits,
/// CAN identifiers with three.
pub fn format_signal_id(kind: SignalKind, id: u32) -> (s: String)
    ensures
        s@ == signal_id_text(kind, id),
{
    let mut v: Vec<char> = Vec::new();
    push_str(&mut v, "0x");
    match kind {
        SignalKind::Pid => push_hex_field(&mut v, id, 2),
        SignalKind::CanId => push_hex_field(&mut v, id, 3),
    }
    string_from_chars(&v)
}

/// Bytes as two-digit upper-case hexadecimal numbers separated by spaces.
pub open spec fn payload_text(bytes: Seq<u8>) -> Seq<char>
    decreases bytes.len(),
{
    if bytes.len() == 0 {
        Seq::empty()
    } else if bytes.len() == 1 {
        hex_field(bytes[0] as nat, 2)
    } else {
        payload_text(bytes.drop_last()) + " "@ + hex_field(bytes.last() as nat, 2)
    }
}

/// A frame's payload as listed with an unknown CAN identifier.
pub fn format_payload(payload: &[u8]) -> (s: String)
    ensures
        s@ == payload_text(payload@),
{
    let mut v: Vec<char> = Vec::new();
    let mut i: usize = 0;
    while i < payload.len()
        invariant
            i <= payload@.len(),
            v@ == payload_text(payload@.take(i as int)),
        decreases payload.len() - i,
    {
        if i > 0 {
            push_str(&mut v, " ");
        }
        push_hex_field(&mut v, payload[i] as u32, 2);
        proof {
            let t = payload@.take(i + 1);
            assert(t.drop_last() =~= payload@.take(i as int));
            assert(t.last() == payload@[i as int]);
            if i == 0 {
                assert(payload@.take(0) =~= Seq::<u8>::empty());
            }
        }
        i = i + 1;
    }
    assert(payload@.take(payload@.len() as int) =~= payload@);
    string_from_chars(&v)
}

impl ScoreDomain {
    pub open spec fn label_text(self) -> Seq<char> {
        match self {
            ScoreDomain::Thermal => "Thermal"@,
            ScoreDomain::Electrical => "Electrical"@,
            ScoreDomain::AirFuel => "Air / fuel"@,
            ScoreDomain::RunningStability => "Running stability"@,
        }
    }

    /// The heading of a component score on the health screen.
    pub fn label(self) -> (s: &'static str)
        ensures
            s@ == self.label_text(),
    {
        match self {
            ScoreDomain::Thermal => "Thermal",
            ScoreDomain::Electrical => "Electrical",
            ScoreDomain::AirFuel => "Air / fuel",
            ScoreDomain::RunningStability => "Running stability",
        }
    }
}

/// A text, or a dash where there is none.
pub open spec fn or_dash(v: Option<Seq<char>>) -> Seq<char> {
    match v {
        Some(s) => s,
        None => "—"@,
    }
}

pub open spec fn opt_view(v: Option<&str>) -> Option<Seq<char>> {
    match v {
        Some(s) => Some(s@),
        None => None,
    }
}

/// The second line of the vehicle header: maker, model, model year and the
/// end of the VIN, then how many vehicles are registered when there are
/// several.
pub open spec fn vehicle_detail_text(
    manufacturer: Option<Seq<char>>,
    model: Option<Seq<char>>,
    model_year: Option<u16>,
    vin: Option<Seq<char>>,
    vehicle_count: nat,
) -> Seq<char> {
    let year = match model_year {
        Some(y) => decimal(y as nat),
        None => "—"@,
    };
    let vin_text = match vin {
        Some(v) => "VIN …"@ + v.skip(11),
        None => "VIN未登録"@,
    };
    let line = or_dash(manufacturer) + " "@ + or_dash(model) + " · "@ + year + " · "@ + vin_text;
    if vehicle_count > 1 {
        line + " · 登録車両 "@ + decimal(vehicle_count) + "台"@
    } else {
        line
    }
}

fn push_or_dash(out: &mut Vec<char>, v: Option<&str>)
    ensures
        final(out)@ == old(out)@ + or_dash(opt_view(v)),
{
    match v {
        Some(s) => push_str(out, s),
        None => push_str(out, "—"),
    }
}

/// The header naming the first registered vehicle, as its display name
/// and a detail line; a prompt to register one when there is none.
pub fn vehicle_header(
    first: Option<(&str, Option<&str>, Option<&str>, Option<u16>, Option<&str>)>,
    vehicle_count: usize,
) -> (r: (String, String))
    requires
        first matches Some(v) ==> (v.4 matches Some(vin) ==> valid_vin(vin@)),
    ensures
        match first {
            Some(v) => r.0@ == v.0@ && r.1@ == vehicle_detail_text(
                opt_view(v.1),
                opt_view(v.2),
                v.3,
                opt_view(v.4),
                vehicle_count as nat,
            ),
            None => r.0@ == "車両未設定"@ && r.1@ == "クリックして車両情報を設定"@,
        },
{
    match first {
        None => ("車両未設定".to_owned(), "クリックして車両情報を設定".to_owned()),
        Some((name, manufacturer, model, model_year, vin)) => {
            let mut d: Vec<char> = Vec::new();
            push_or_dash(&mut d, manufacturer);
            push_str(&mut d, " ");
            push_or_dash(&mut d, model);
            push_str(&mut d, " · ");
            match model_year {
                Some(y) => push_decimal(&mut d, y as u64),
                None => push_str(&mut d, "—"),
            }
            push_str(&mut d, " · ");
            match vin {
                Some(v) => {
                    push_str(&mut d, "VIN …");
                    let c = chars_of(v);
                    let mut k: usize = 11;
                    let ghost before = d@;
                    while k < c.len()
                        invariant
                            11 <= k <= c@.len(),
                            d@ == before + c@.subrange(11, k as int),
                        decreases c.len() - k,
                    {
                        d.push(c[k]);
                        assert(c@.subrange(11, k + 1) =~= c@.subrange(11, k as int).push(c@[k as int]));
                        k = k + 1;
                    }
                    assert(c@.subrange(11, c@.len() as int) =~= c@.skip(11));
                },
                None => push_str(&mut d, "VIN未登録"),
            }
            if vehicle_count > 1 {
                push_str(&mut d, " · 登録車両 ");
                push_decimal(&mut d, vehicle_count as u64);
                push_str(&mut d, "台");
            }
            (name.to_owned(), string_from_chars(&d))
        },
    }
}

} // verus!
