//! Energy used by the systems of a building.

use vstd::prelude::*;
use crate::cte::render::{joined, value_texts, values_to_text};
use crate::decimal::chars_of;
use crate::error::EpbdError;
use crate::fixed::ints;
use crate::records::{
    char_lists, record_comment, record_fields, record_of, values_between, values_from,
};
use crate::text::{integer_text, is_text, parse_i32, parsed_integer, push_integer, text_of};
use crate::types::{CSubtype, Carrier, Service};

verus! {

/// Energy of one carrier used for one end use, as a series of quantities
/// in thousandths, one for each step of the period.
#[derive(Debug, PartialEq, Eq)]
pub struct UsedEnergy {
    /// The system that uses the energy: zero for the building as a whole, a
    /// positive number for one system, a negative one for a fictitious
    /// system.
    pub id: i32,
    /// The carrier.
    pub carrier: Carrier,
    /// Regulated or non-regulated use.
    pub csubtype: CSubtype,
    /// The end use.
    pub service: Service,
    /// The quantities, one for each step of the period.
    pub values: Vec<i64>,
    /// A free comment.
    pub comment: String,
}

/// What a component of used energy holds.
pub struct UsedEnergyView {
    /// The system that uses the energy.
    pub id: int,
    /// The carrier.
    pub carrier: Carrier,
    /// Regulated or non-regulated use.
    pub csubtype: CSubtype,
    /// The end use.
    pub service: Service,
    /// The quantities, one for each step of the period.
    pub values: Seq<int>,
    /// A free comment.
    pub comment: Seq<char>,
}

impl View for UsedEnergy {
    type V = UsedEnergyView;

    open spec fn view(&self) -> UsedEnergyView {
        UsedEnergyView {
            id: self.id as int,
            carrier: self.carrier,
            csubtype: self.csubtype,
            service: self.service,
            values: ints(self.values@),
            comment: self.comment@,
        }
    }
}

impl Clone for UsedEnergy {
    fn clone(&self) -> (r: UsedEnergy)
        ensures
            r@ == self@,
    {
        UsedEnergy {
            id: self.id,
            carrier: self.carrier,
            csubtype: self.csubtype,
            service: self.service,
            values: crate::components::copy_values(&self.values),
            comment: self.comment.clone(),
        }
    }
}

/// Something that holds a series of quantities.
pub trait HasValues {
    /// The quantities that are held.
    spec fn held(&self) -> Seq<i64>;

    /// The quantities, one for each step of the period.
    fn values(&self) -> (r: &[i64])
        ensures
            r@ == self.held(),
    ;
}

impl HasValues for UsedEnergy {
    open spec fn held(&self) -> Seq<i64> {
        self.values@
    }

    fn values(&self) -> (r: &[i64]) {
        self.values.as_slice()
    }
}

/// The whole number of 32 bits that a text writes.
pub open spec fn parsed_i32(s: Seq<char>) -> Option<int> {
    match parsed_integer(s) {
        Some(v) => if i32::MIN <= v <= i32::MAX {
            Some(v)
        } else {
            None
        },
        None => None,
    }
}

/// The component of used energy that a record writes: an optional number
/// of the system, the carrier, the word `CONSUMO`, the subtype (`EPB` or
/// `NEPB`), an optional service, and the quantities; then, after a hash
/// sign, the comment. None for any other record.
pub open spec fn parsed_used_energy(s: Seq<char>) -> Option<UsedEnergyView> {
    let f = record_fields(s);
    let (base, id) = match parsed_i32(f[0]) {
        Some(id) => (1int, id),
        None => (0int, 0int),
    };
    if f.len() < base + 4 {
        None
    } else {
        match (Carrier::of_name(f[base]), CSubtype::of_name(f[base + 2])) {
            (Some(carrier), Some(csubtype)) => {
                if f[base + 1] == "CONSUMO"@ && (csubtype == CSubtype::EPB || csubtype
                    == CSubtype::NEPB) {
                    let (first, service) = match Service::of_name(f[base + 3]) {
                        Some(service) => (base + 4, service),
                        None => (base + 3, Service::NDEF),
                    };
                    match values_between(f, first, f.len() as int) {
                        Some(values) => Some(
                            UsedEnergyView {
                                id,
                                carrier,
                                csubtype,
                                service,
                                values,
                                comment: record_comment(s),
                            },
                        ),
                        None => None,
                    }
                } else {
                    None
                }
            },
            _ => None,
        }
    }
}

/// A component of used energy as a record: the number of the system, the
/// carrier, the word `CONSUMO`, the subtype, the service, and the
/// quantities with two decimals, with a comma and a space between each two
/// fields; then the comment after a hash sign, if there is one.
pub open spec fn used_energy_text(u: UsedEnergyView) -> Seq<char> {
    integer_text(u.id) + ", "@ + u.carrier.name_spec() + ", CONSUMO, "@ + u.csubtype.name_spec()
        + ", "@ + u.service.name_spec() + ", "@ + joined(value_texts(u.values), ", "@) + if u.comment.len()
        > 0 {
        " # "@ + u.comment
    } else {
        Seq::<char>::empty()
    }
}

impl UsedEnergy {
    /// Whether the component is of the given service.
    pub fn has_service(&self, service: Service) -> (r: bool)
        ensures
            r == (self.service == service),
    {
        self.service == service
    }

    /// Whether the component is of the given carrier.
    pub fn has_carrier(&self, carrier: Carrier) -> (r: bool)
        ensures
            r == (self.carrier == carrier),
    {
        self.carrier == carrier
    }

    /// Whether the component is of electricity.
    pub fn is_electricity(&self) -> (r: bool)
        ensures
            r == (self.carrier == Carrier::ELECTRICIDAD),
    {
        self.carrier == Carrier::ELECTRICIDAD
    }

    /// Whether the component is of generated energy: never.
    pub fn is_generated(&self) -> (r: bool)
        ensures
            !r,
    {
        false
    }

    /// Whether the component is of used energy: always.
    pub fn is_used(&self) -> (r: bool)
        ensures
            r,
    {
        true
    }

    /// Whether the component is a regulated use.
    pub fn is_epb(&self) -> (r: bool)
        ensures
            r == (self.csubtype == CSubtype::EPB),
    {
        self.csubtype == CSubtype::EPB
    }

    /// The component as a record.
    pub fn to_string(&self) -> (r: String)
        ensures
            r@ == used_energy_text(self@),
    {
        let mut out: String = String::new();
        push_integer(&mut out, self.id as i64);
        out.append(", ");
        out.append(self.carrier.name());
        out.append(", CONSUMO, ");
        out.append(self.csubtype.name());
        out.append(", ");
        out.append(self.service.name());
        out.append(", ");
        out.append(values_to_text(&self.values, ", ").as_str());
        if self.comment.as_str().unicode_len() > 0 {
            out.append(" # ");
            out.append(self.comment.as_str());
        }
        assert(out@ =~= used_energy_text(self@));
        out
    }

    /// The component that a record writes. Any record that writes none is
    /// handed back as malformed.
    pub fn parse(s: &str) -> (r: Result<UsedEnergy, EpbdError>)
        ensures
            match r {
                Ok(u) => parsed_used_energy(s@) == Some(u@),
                Err(e) => parsed_used_energy(s@) is None && (e matches EpbdError::MalformedRecord {
                    record,
                } && record@ == s@),
            },
    {
        let chars: Vec<char> = chars_of(s);
        match parse_used_energy(&chars) {
            Some(u) => Ok(u),
            None => Err(EpbdError::MalformedRecord { record: String::from_str(s) }),
        }
    }
}

/// The component of used energy that a record writes.
fn parse_used_energy(chars: &Vec<char>) -> (r: Option<UsedEnergy>)
    ensures
        match r {
            Some(u) => parsed_used_energy(chars@) == Some(u@),
            None => parsed_used_energy(chars@) is None,
        },
{
    let (f, comment) = record_of(chars);
    let ghost fs = record_fields(chars@);
    assert(forall|k: int| 0 <= k < f.len() ==> (#[trigger] f@[k])@ == fs[k]) by {
        assert forall|k: int| 0 <= k < f.len() implies (#[trigger] f@[k])@ == fs[k] by {
            assert(char_lists(f@)[k] == f@[k]@);
        }
    }
    let (base, id): (usize, i32) = match parse_i32(&f[0]) {
        Some(id) => (1, id),
        None => (0, 0),
    };
    if f.len() < base + 4 {
        return None;
    }
    let carrier: Carrier = match Carrier::from_name(text_of(&f[base]).as_str()) {
        Some(c) => c,
        None => {
            return None;
        },
    };
    let csubtype: CSubtype = match CSubtype::from_name(text_of(&f[base + 2]).as_str()) {
        Some(c) => c,
        None => {
            return None;
        },
    };
    if !(is_text(&f[base + 1], "CONSUMO") && (csubtype == CSubtype::EPB || csubtype
        == CSubtype::NEPB)) {
        return None;
    }
    let (first, service): (usize, Service) = match Service::from_name(
        text_of(&f[base + 3]).as_str(),
    ) {
        Some(service) => (base + 4, service),
        None => (base + 3, Service::NDEF),
    };
    match values_from(&f, first) {
        Some(values) => Some(UsedEnergy { id, carrier, csubtype, service, values, comment }),
        None => None,
    }
}

impl std::str::FromStr for UsedEnergy {
    type Err = EpbdError;

    fn from_str(s: &str) -> (r: Result<UsedEnergy, EpbdError>)
        ensures
            match r {
                Ok(u) => parsed_used_energy(s@) == Some(u@),
                Err(e) => parsed_used_energy(s@) is None && (e matches EpbdError::MalformedRecord {
                    record,
                } && record@ == s@),
            },
    {
        UsedEnergy::parse(s)
    }
}

} // verus!
