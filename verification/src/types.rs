//! The vocabulary of an energy-performance computation: carriers, sources,
//! destinations, calculation steps, end uses, and the factor and component
//! records built from them.
//!
//! Numbers are fixed-point integers in thousandths: `1000` is a factor of
//! one, or one unit of energy. That is the unit in which tables are read
//! from text and written to it; balancing, partitioning and the arithmetic
//! on series hold for any unit, as they never rescale a quantity.

use vstd::prelude::*;
use crate::error::EpbdError;

pub mod used_energy;

verus! {

/// An energy carrier.
#[derive(Clone, Copy, Debug, PartialEq, Eq, Hash, Structural)]
#[allow(non_camel_case_types)]
pub enum Carrier {
    /// Electricity.
    ELECTRICIDAD,
    /// Thermal energy taken from the environment.
    MEDIOAMBIENTE,
    /// Biofuel.
    BIOCARBURANTE,
    /// Solid biomass.
    BIOMASA,
    /// Densified biomass (pellets).
    BIOMASADENSIFICADA,
    /// Coal.
    CARBON,
    /// Natural gas.
    GASNATURAL,
    /// Heating oil.
    GASOLEO,
    /// Liquefied petroleum gas.
    GLP,
    /// District network 1.
    RED1,
    /// District network 2.
    RED2,
}

/// Where the energy delivered into a carrier comes from.
#[derive(Clone, Copy, Debug, PartialEq, Eq, Hash, Structural)]
#[allow(non_camel_case_types)]
pub enum Source {
    /// The grid.
    RED,
    /// Produced on site.
    INSITU,
    /// Produced on site by cogeneration.
    COGENERACION,
}

/// Where the energy goes.
#[derive(Clone, Copy, Debug, PartialEq, Eq, Hash, Structural)]
#[allow(non_camel_case_types)]
pub enum Dest {
    /// Supplied to the building.
    SUMINISTRO,
    /// Exported to the grid.
    A_RED,
    /// Exported to non-regulated uses.
    A_NEPB,
}

/// The calculation step a factor belongs to.
#[derive(Clone, Copy, Debug, PartialEq, Eq, Hash, Structural)]
#[allow(non_camel_case_types)]
pub enum Step {
    /// Weighs energy at the point of delivery or export.
    A,
    /// Weighs the credit for exporting energy instead of drawing it from the grid.
    B,
}

/// Whether a component records used or produced energy.
#[derive(Clone, Copy, Debug, PartialEq, Eq, Hash, Structural)]
#[allow(non_camel_case_types)]
pub enum CType {
    /// Energy used.
    CONSUMO,
    /// Energy produced.
    PRODUCCION,
}

/// The kind of use or of production of a component.
#[derive(Clone, Copy, Debug, PartialEq, Eq, Hash, Structural)]
#[allow(non_camel_case_types)]
pub enum CSubtype {
    /// Regulated use.
    EPB,
    /// Non-regulated use.
    NEPB,
    /// On-site production.
    INSITU,
    /// Cogeneration.
    COGENERACION,
}

/// The end use that a component serves.
#[derive(Clone, Copy, Debug, PartialEq, Eq, Hash, Structural)]
#[allow(non_camel_case_types)]
pub enum Service {
    /// Domestic hot water.
    ACS,
    /// Heating.
    CAL,
    /// Cooling.
    REF,
    /// Ventilation.
    VEN,
    /// Lighting.
    ILU,
    /// Humidification.
    HU,
    /// Dehumidification.
    DHU,
    /// Building automation and control.
    BAC,
    /// No service assigned.
    NDEF,
}

impl Carrier {
    /// The carrier's name as written in tables.
    pub open spec fn name_spec(self) -> Seq<char> {
        match self {
            Carrier::ELECTRICIDAD => "ELECTRICIDAD"@,
            Carrier::MEDIOAMBIENTE => "MEDIOAMBIENTE"@,
            Carrier::BIOCARBURANTE => "BIOCARBURANTE"@,
            Carrier::BIOMASA => "BIOMASA"@,
            Carrier::BIOMASADENSIFICADA => "BIOMASADENSIFICADA"@,
            Carrier::CARBON => "CARBON"@,
            Carrier::GASNATURAL => "GASNATURAL"@,
            Carrier::GASOLEO => "GASOLEO"@,
            Carrier::GLP => "GLP"@,
            Carrier::RED1 => "RED1"@,
            Carrier::RED2 => "RED2"@,
        }
    }

    /// The carrier's name as written in tables.
    pub fn name(&self) -> (r: &'static str)
        ensures
            r@ == self.name_spec(),
    {
        match self {
            Carrier::ELECTRICIDAD => "ELECTRICIDAD",
            Carrier::MEDIOAMBIENTE => "MEDIOAMBIENTE",
            Carrier::BIOCARBURANTE => "BIOCARBURANTE",
            Carrier::BIOMASA => "BIOMASA",
            Carrier::BIOMASADENSIFICADA => "BIOMASADENSIFICADA",
            Carrier::CARBON => "CARBON",
            Carrier::GASNATURAL => "GASNATURAL",
            Carrier::GASOLEO => "GASOLEO",
            Carrier::GLP => "GLP",
            Carrier::RED1 => "RED1",
            Carrier::RED2 => "RED2",
        }
    }

    /// A small integer that stands for the carrier, one per carrier.
    pub open spec fn code_spec(self) -> u8 {
        match self {
            Carrier::ELECTRICIDAD => 0,
            Carrier::MEDIOAMBIENTE => 1,
            Carrier::BIOCARBURANTE => 2,
            Carrier::BIOMASA => 3,
            Carrier::BIOMASADENSIFICADA => 4,
            Carrier::CARBON => 5,
            Carrier::GASNATURAL => 6,
            Carrier::GASOLEO => 7,
            Carrier::GLP => 8,
            Carrier::RED1 => 9,
            Carrier::RED2 => 10,
        }
    }

    /// The carrier that a code stands for, if any.
    pub open spec fn of_code(code: u8) -> Option<Carrier> {
        if code == 0 {
            Some(Carrier::ELECTRICIDAD)
        } else if code == 1 {
            Some(Carrier::MEDIOAMBIENTE)
        } else if code == 2 {
            Some(Carrier::BIOCARBURANTE)
        } else if code == 3 {
            Some(Carrier::BIOMASA)
        } else if code == 4 {
            Some(Carrier::BIOMASADENSIFICADA)
        } else if code == 5 {
            Some(Carrier::CARBON)
        } else if code == 6 {
            Some(Carrier::GASNATURAL)
        } else if code == 7 {
            Some(Carrier::GASOLEO)
        } else if code == 8 {
            Some(Carrier::GLP)
        } else if code == 9 {
            Some(Carrier::RED1)
        } else if code == 10 {
            Some(Carrier::RED2)
        } else {
            None
        }
    }

    /// A small integer that stands for the carrier, one per carrier.
    #[verifier::when_used_as_spec(code_spec)]
    pub fn code(self) -> (r: u8)
        ensures
            r == self.code_spec(),
            Carrier::of_code(r) == Some(self),
    {
        match self {
            Carrier::ELECTRICIDAD => 0,
            Carrier::MEDIOAMBIENTE => 1,
            Carrier::BIOCARBURANTE => 2,
            Carrier::BIOMASA => 3,
            Carrier::BIOMASADENSIFICADA => 4,
            Carrier::CARBON => 5,
            Carrier::GASNATURAL => 6,
            Carrier::GASOLEO => 7,
            Carrier::GLP => 8,
            Carrier::RED1 => 9,
            Carrier::RED2 => 10,
        }
    }

    /// The carrier that a code stands for, if any.
    pub fn from_code(code: u8) -> (r: Option<Carrier>)
        ensures
            r == Carrier::of_code(code),
            r matches Some(c) ==> c.code_spec() == code,
    {
        if code == 0 {
            Some(Carrier::ELECTRICIDAD)
        } else if code == 1 {
            Some(Carrier::MEDIOAMBIENTE)
        } else if code == 2 {
            Some(Carrier::BIOCARBURANTE)
        } else if code == 3 {
            Some(Carrier::BIOMASA)
        } else if code == 4 {
            Some(Carrier::BIOMASADENSIFICADA)
        } else if code == 5 {
            Some(Carrier::CARBON)
        } else if code == 6 {
            Some(Carrier::GASNATURAL)
        } else if code == 7 {
            Some(Carrier::GASOLEO)
        } else if code == 8 {
            Some(Carrier::GLP)
        } else if code == 9 {
            Some(Carrier::RED1)
        } else if code == 10 {
            Some(Carrier::RED2)
        } else {
            None
        }
    }
}

impl Source {
    /// The source's name as written in tables.
    pub open spec fn name_spec(self) -> Seq<char> {
        match self {
            Source::RED => "RED"@,
            Source::INSITU => "INSITU"@,
            Source::COGENERACION => "COGENERACION"@,
        }
    }

    /// The source's name as written in tables.
    pub fn name(&self) -> (r: &'static str)
        ensures
            r@ == self.name_spec(),
    {
        match self {
            Source::RED => "RED",
            Source::INSITU => "INSITU",
            Source::COGENERACION => "COGENERACION",
        }
    }
}

impl Dest {
    /// The destination's name as written in tables.
    pub open spec fn name_spec(self) -> Seq<char> {
        match self {
            Dest::SUMINISTRO => "SUMINISTRO"@,
            Dest::A_RED => "A_RED"@,
            Dest::A_NEPB => "A_NEPB"@,
        }
    }

    /// The destination's name as written in tables.
    pub fn name(&self) -> (r: &'static str)
        ensures
            r@ == self.name_spec(),
    {
        match self {
            Dest::SUMINISTRO => "SUMINISTRO",
            Dest::A_RED => "A_RED",
            Dest::A_NEPB => "A_NEPB",
        }
    }
}

impl Step {
    /// The step's name as written in tables.
    pub open spec fn name_spec(self) -> Seq<char> {
        match self {
            Step::A => "A"@,
            Step::B => "B"@,
        }
    }

    /// The step's name as written in tables.
    pub fn name(&self) -> (r: &'static str)
        ensures
            r@ == self.name_spec(),
    {
        match self {
            Step::A => "A",
            Step::B => "B",
        }
    }
}

impl CType {
    /// The type's name as written in tables.
    pub open spec fn name_spec(self) -> Seq<char> {
        match self {
            CType::CONSUMO => "CONSUMO"@,
            CType::PRODUCCION => "PRODUCCION"@,
        }
    }

    /// The type's name as written in tables.
    pub fn name(&self) -> (r: &'static str)
        ensures
            r@ == self.name_spec(),
    {
        match self {
            CType::CONSUMO => "CONSUMO",
            CType::PRODUCCION => "PRODUCCION",
        }
    }
}

impl CSubtype {
    /// The subtype's name as written in tables.
    pub open spec fn name_spec(self) -> Seq<char> {
        match self {
            CSubtype::EPB => "EPB"@,
            CSubtype::NEPB => "NEPB"@,
            CSubtype::INSITU => "INSITU"@,
            CSubtype::COGENERACION => "COGENERACION"@,
        }
    }

    /// The subtype's name as written in tables.
    pub fn name(&self) -> (r: &'static str)
        ensures
            r@ == self.name_spec(),
    {
        match self {
            CSubtype::EPB => "EPB",
            CSubtype::NEPB => "NEPB",
            CSubtype::INSITU => "INSITU",
            CSubtype::COGENERACION => "COGENERACION",
        }
    }
}

impl Service {
    /// The service's name as written in tables.
    pub open spec fn name_spec(self) -> Seq<char> {
        match self {
            Service::ACS => "ACS"@,
            Service::CAL => "CAL"@,
            Service::REF => "REF"@,
            Service::VEN => "VEN"@,
            Service::ILU => "ILU"@,
            Service::HU => "HU"@,
            Service::DHU => "DHU"@,
            Service::BAC => "BAC"@,
            Service::NDEF => "NDEF"@,
        }
    }

    /// The service's name as written in tables.
    pub fn name(&self) -> (r: &'static str)
        ensures
            r@ == self.name_spec(),
    {
        match self {
            Service::ACS => "ACS",
            Service::CAL => "CAL",
            Service::REF => "REF",
            Service::VEN => "VEN",
            Service::ILU => "ILU",
            Service::HU => "HU",
            Service::DHU => "DHU",
            Service::BAC => "BAC",
            Service::NDEF => "NDEF",
        }
    }

    /// A small integer that stands for the service, one per service.
    pub open spec fn code_spec(self) -> u8 {
        match self {
            Service::ACS => 0,
            Service::CAL => 1,
            Service::REF => 2,
            Service::VEN => 3,
            Service::ILU => 4,
            Service::HU => 5,
            Service::DHU => 6,
            Service::BAC => 7,
            Service::NDEF => 8,
        }
    }

    /// The service that a code stands for, if any.
    pub open spec fn of_code(code: u8) -> Option<Service> {
        if code == 0 {
            Some(Service::ACS)
        } else if code == 1 {
            Some(Service::CAL)
        } else if code == 2 {
            Some(Service::REF)
        } else if code == 3 {
            Some(Service::VEN)
        } else if code == 4 {
            Some(Service::ILU)
        } else if code == 5 {
            Some(Service::HU)
        } else if code == 6 {
            Some(Service::DHU)
        } else if code == 7 {
            Some(Service::BAC)
        } else if code == 8 {
            Some(Service::NDEF)
        } else {
            None
        }
    }

    /// A small integer that stands for the service, one per service.
    #[verifier::when_used_as_spec(code_spec)]
    pub fn code(self) -> (r: u8)
        ensures
            r == self.code_spec(),
            Service::of_code(r) == Some(self),
    {
        match self {
            Service::ACS => 0,
            Service::CAL => 1,
            Service::REF => 2,
            Service::VEN => 3,
            Service::ILU => 4,
            Service::HU => 5,
            Service::DHU => 6,
            Service::BAC => 7,
            Service::NDEF => 8,
        }
    }

    /// The service that a code stands for, if any.
    pub fn from_code(code: u8) -> (r: Option<Service>)
        ensures
            r == Service::of_code(code),
            r matches Some(s) ==> s.code_spec() == code,
    {
        if code == 0 {
            Some(Service::ACS)
        } else if code == 1 {
            Some(Service::CAL)
        } else if code == 2 {
            Some(Service::REF)
        } else if code == 3 {
            Some(Service::VEN)
        } else if code == 4 {
            Some(Service::ILU)
        } else if code == 5 {
            Some(Service::HU)
        } else if code == 6 {
            Some(Service::DHU)
        } else if code == 7 {
            Some(Service::BAC)
        } else if code == 8 {
            Some(Service::NDEF)
        } else {
            None
        }
    }
}

/// A text of its own with the characters of a given one.
pub fn owned(s: &str) -> (r: String)
    ensures
        r@ == s@,
{
    String::from_str(s)
}

/// Whether two texts are the same.
pub fn same_text(a: &str, b: &str) -> (r: bool)
    ensures
        r == (a@ == b@),
{
    String::from_str(a) == String::from_str(b)
}

impl Carrier {
    /// The carrier of a name, if the name is one.
    pub open spec fn of_name(name: Seq<char>) -> Option<Carrier> {
        if name == "ELECTRICIDAD"@ {
            Some(Carrier::ELECTRICIDAD)
        } else if name == "MEDIOAMBIENTE"@ {
            Some(Carrier::MEDIOAMBIENTE)
        } else if name == "BIOCARBURANTE"@ {
            Some(Carrier::BIOCARBURANTE)
        } else if name == "BIOMASA"@ {
            Some(Carrier::BIOMASA)
        } else if name == "BIOMASADENSIFICADA"@ {
            Some(Carrier::BIOMASADENSIFICADA)
        } else if name == "CARBON"@ {
            Some(Carrier::CARBON)
        } else if name == "GASNATURAL"@ {
            Some(Carrier::GASNATURAL)
        } else if name == "GASOLEO"@ {
            Some(Carrier::GASOLEO)
        } else if name == "GLP"@ {
            Some(Carrier::GLP)
        } else if name == "RED1"@ {
            Some(Carrier::RED1)
        } else if name == "RED2"@ {
            Some(Carrier::RED2)
        } else {
            None
        }
    }

    /// The carrier of a name, if the name is one.
    pub fn from_name(name: &str) -> (r: Option<Carrier>)
        ensures
            r == Carrier::of_name(name@),
    {
        if same_text(name, "ELECTRICIDAD") {
            Some(Carrier::ELECTRICIDAD)
        } else if same_text(name, "MEDIOAMBIENTE") {
            Some(Carrier::MEDIOAMBIENTE)
        } else if same_text(name, "BIOCARBURANTE") {
            Some(Carrier::BIOCARBURANTE)
        } else if same_text(name, "BIOMASA") {
            Some(Carrier::BIOMASA)
        } else if same_text(name, "BIOMASADENSIFICADA") {
            Some(Carrier::BIOMASADENSIFICADA)
        } else if same_text(name, "CARBON") {
            Some(Carrier::CARBON)
        } else if same_text(name, "GASNATURAL") {
            Some(Carrier::GASNATURAL)
        } else if same_text(name, "GASOLEO") {
            Some(Carrier::GASOLEO)
        } else if same_text(name, "GLP") {
            Some(Carrier::GLP)
        } else if same_text(name, "RED1") {
            Some(Carrier::RED1)
        } else if same_text(name, "RED2") {
            Some(Carrier::RED2)
        } else {
            None
        }
    }
}

impl Source {
    /// The source of a name, if the name is one.
    pub open spec fn of_name(name: Seq<char>) -> Option<Source> {
        if name == "RED"@ {
            Some(Source::RED)
        } else if name == "INSITU"@ {
            Some(Source::INSITU)
        } else if name == "COGENERACION"@ {
            Some(Source::COGENERACION)
        } else {
            None
        }
    }

    /// The source of a name, if the name is one.
    pub fn from_name(name: &str) -> (r: Option<Source>)
        ensures
            r == Source::of_name(name@),
    {
        if same_text(name, "RED") {
            Some(Source::RED)
        } else if same_text(name, "INSITU") {
            Some(Source::INSITU)
        } else if same_text(name, "COGENERACION") {
            Some(Source::COGENERACION)
        } else {
            None
        }
    }
}

impl Dest {
    /// The destination of a name, if the name is one.
    pub open spec fn of_name(name: Seq<char>) -> Option<Dest> {
        if name == "SUMINISTRO"@ {
            Some(Dest::SUMINISTRO)
        } else if name == "A_RED"@ {
            Some(Dest::A_RED)
        } else if name == "A_NEPB"@ {
            Some(Dest::A_NEPB)
        } else {
            None
        }
    }

    /// The destination of a name, if the name is one.
    pub fn from_name(name: &str) -> (r: Option<Dest>)
        ensures
            r == Dest::of_name(name@),
    {
        if same_text(name, "SUMINISTRO") {
            Some(Dest::SUMINISTRO)
        } else if same_text(name, "A_RED") {
            Some(Dest::A_RED)
        } else if same_text(name, "A_NEPB") {
            Some(Dest::A_NEPB)
        } else {
            None
        }
    }
}

impl Step {
    /// The step of a name, if the name is one.
    pub open spec fn of_name(name: Seq<char>) -> Option<Step> {
        if name == "A"@ {
            Some(Step::A)
        } else if name == "B"@ {
            Some(Step::B)
        } else {
            None
        }
    }

    /// The step of a name, if the name is one.
    pub fn from_name(name: &str) -> (r: Option<Step>)
        ensures
            r == Step::of_name(name@),
    {
        if same_text(name, "A") {
            Some(Step::A)
        } else if same_text(name, "B") {
            Some(Step::B)
        } else {
            None
        }
    }
}

impl CType {
    /// The type of a name, if the name is one.
    pub open spec fn of_name(name: Seq<char>) -> Option<CType> {
        if name == "CONSUMO"@ {
            Some(CType::CONSUMO)
        } else if name == "PRODUCCION"@ {
            Some(CType::PRODUCCION)
        } else {
            None
        }
    }

    /// The type of a name, if the name is one.
    pub fn from_name(name: &str) -> (r: Option<CType>)
        ensures
            r == CType::of_name(name@),
    {
        if same_text(name, "CONSUMO") {
            Some(CType::CONSUMO)
        } else if same_text(name, "PRODUCCION") {
            Some(CType::PRODUCCION)
        } else {
            None
        }
    }
}

impl CSubtype {
    /// The subtype of a name, if the name is one.
    pub open spec fn of_name(name: Seq<char>) -> Option<CSubtype> {
        if name == "EPB"@ {
            Some(CSubtype::EPB)
        } else if name == "NEPB"@ {
            Some(CSubtype::NEPB)
        } else if name == "INSITU"@ {
            Some(CSubtype::INSITU)
        } else if name == "COGENERACION"@ {
            Some(CSubtype::COGENERACION)
        } else {
            None
        }
    }

    /// The subtype of a name, if the name is one.
    pub fn from_name(name: &str) -> (r: Option<CSubtype>)
        ensures
            r == CSubtype::of_name(name@),
    {
        if same_text(name, "EPB") {
            Some(CSubtype::EPB)
        } else if same_text(name, "NEPB") {
            Some(CSubtype::NEPB)
        } else if same_text(name, "INSITU") {
            Some(CSubtype::INSITU)
        } else if same_text(name, "COGENERACION") {
            Some(CSubtype::COGENERACION)
        } else {
            None
        }
    }
}

impl Service {
    /// The service of a name, if the name is one.
    pub open spec fn of_name(name: Seq<char>) -> Option<Service> {
        if name == "ACS"@ {
            Some(Service::ACS)
        } else if name == "CAL"@ {
            Some(Service::CAL)
        } else if name == "REF"@ {
            Some(Service::REF)
        } else if name == "VEN"@ {
            Some(Service::VEN)
        } else if name == "ILU"@ {
            Some(Service::ILU)
        } else if name == "HU"@ {
            Some(Service::HU)
        } else if name == "DHU"@ {
            Some(Service::DHU)
        } else if name == "BAC"@ {
            Some(Service::BAC)
        } else if name == "NDEF"@ {
            Some(Service::NDEF)
        } else {
            None
        }
    }

    /// The service of a name, if the name is one.
    pub fn from_name(name: &str) -> (r: Option<Service>)
        ensures
            r == Service::of_name(name@),
    {
        if same_text(name, "ACS") {
            Some(Service::ACS)
        } else if same_text(name, "CAL") {
            Some(Service::CAL)
        } else if same_text(name, "REF") {
            Some(Service::REF)
        } else if same_text(name, "VEN") {
            Some(Service::VEN)
        } else if same_text(name, "ILU") {
            Some(Service::ILU)
        } else if same_text(name, "HU") {
            Some(Service::HU)
        } else if same_text(name, "DHU") {
            Some(Service::DHU)
        } else if same_text(name, "BAC") {
            Some(Service::BAC)
        } else if same_text(name, "NDEF") {
            Some(Service::NDEF)
        } else {
            None
        }
    }
}

impl core::str::FromStr for Carrier {
    type Err = EpbdError;

    fn from_str(s: &str) -> (r: Result<Carrier, EpbdError>)
        ensures
            match r {
                Ok(v) => Carrier::of_name(s@) == Some(v),
                Err(e) => Carrier::of_name(s@) is None && (e matches EpbdError::MalformedRecord {
                    record,
                } && record@ == s@),
            },
    {
        match Carrier::from_name(s) {
            Some(v) => Ok(v),
            None => Err(EpbdError::MalformedRecord { record: owned(s) }),
        }
    }
}

impl core::str::FromStr for Source {
    type Err = EpbdError;

    fn from_str(s: &str) -> (r: Result<Source, EpbdError>)
        ensures
            match r {
                Ok(v) => Source::of_name(s@) == Some(v),
                Err(e) => Source::of_name(s@) is None && (e matches EpbdError::MalformedRecord {
                    record,
                } && record@ == s@),
            },
    {
        match Source::from_name(s) {
            Some(v) => Ok(v),
            None => Err(EpbdError::MalformedRecord { record: owned(s) }),
        }
    }
}

impl core::str::FromStr for Dest {
    type Err = EpbdError;

    fn from_str(s: &str) -> (r: Result<Dest, EpbdError>)
        ensures
            match r {
                Ok(v) => Dest::of_name(s@) == Some(v),
                Err(e) => Dest::of_name(s@) is None && (e matches EpbdError::MalformedRecord {
                    record,
                } && record@ == s@),
            },
    {
        match Dest::from_name(s) {
            Some(v) => Ok(v),
            None => Err(EpbdError::MalformedRecord { record: owned(s) }),
        }
    }
}

impl core::str::FromStr for Step {
    type Err = EpbdError;

    fn from_str(s: &str) -> (r: Result<Step, EpbdError>)
        ensures
            match r {
                Ok(v) => Step::of_name(s@) == Some(v),
                Err(e) => Step::of_name(s@) is None && (e matches EpbdError::MalformedRecord {
                    record,
                } && record@ == s@),
            },
    {
        match Step::from_name(s) {
            Some(v) => Ok(v),
            None => Err(EpbdError::MalformedRecord { record: owned(s) }),
        }
    }
}

impl core::str::FromStr for CType {
    type Err = EpbdError;

    fn from_str(s: &str) -> (r: Result<CType, EpbdError>)
        ensures
            match r {
                Ok(v) => CType::of_name(s@) == Some(v),
                Err(e) => CType::of_name(s@) is None && (e matches EpbdError::MalformedRecord {
                    record,
                } && record@ == s@),
            },
    {
        match CType::from_name(s) {
            Some(v) => Ok(v),
            None => Err(EpbdError::MalformedRecord { record: owned(s) }),
        }
    }
}

impl core::str::FromStr for CSubtype {
    type Err = EpbdError;

    fn from_str(s: &str) -> (r: Result<CSubtype, EpbdError>)
        ensures
            match r {
                Ok(v) => CSubtype::of_name(s@) == Some(v),
                Err(e) => CSubtype::of_name(s@) is None && (e matches EpbdError::MalformedRecord {
                    record,
                } && record@ == s@),
            },
    {
        match CSubtype::from_name(s) {
            Some(v) => Ok(v),
            None => Err(EpbdError::MalformedRecord { record: owned(s) }),
        }
    }
}

impl core::str::FromStr for Service {
    type Err = EpbdError;

    fn from_str(s: &str) -> (r: Result<Service, EpbdError>)
        ensures
            match r {
                Ok(v) => Service::of_name(s@) == Some(v),
                Err(e) => Service::of_name(s@) is None && (e matches EpbdError::MalformedRecord {
                    record,
                } && record@ == s@),
            },
    {
        match Service::from_name(s) {
            Some(v) => Ok(v),
            None => Err(EpbdError::MalformedRecord { record: owned(s) }),
        }
    }
}

impl Default for Service {
    fn default() -> (r: Service)
        ensures
            r == Service::NDEF,
    {
        Service::NDEF
    }
}

} // verus!
