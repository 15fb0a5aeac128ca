//! What can go wrong while a factor table is built.

use vstd::prelude::*;
use crate::types::{Carrier, Dest, Step};

verus! {

/// A failure to build a complete factor table.
#[derive(Debug, PartialEq, Eq)]
pub enum EpbdError {
    /// A carrier of the table has no factor for supply from the grid at
    /// step A, and none can be assumed.
    MissingGridFactor {
        /// The carrier without the factor.
        carrier: Carrier,
    },
    /// An export factor is absent and the factor it would be taken from is
    /// absent too.
    MissingDerivationSource {
        /// The carrier of the export factor.
        carrier: Carrier,
        /// The destination of the export factor.
        dest: Dest,
        /// The step of the export factor.
        step: Step,
    },
    /// A record of a text does not read as what it should be.
    MalformedRecord {
        /// The record as it was given.
        record: String,
    },
    /// A quantity that would have to be computed is too large to be stored.
    QuantityOutOfRange,
    /// The location asked for is not a known one.
    UnknownLocation {
        /// The location as it was given.
        location: String,
    },
}

/// What an export factor is for, in words.
pub open spec fn export_words(dest: Dest, step: Step) -> Seq<char> {
    match (dest, step) {
        (Dest::A_NEPB, Step::A) => "a usos no EPB en paso A"@,
        (Dest::A_NEPB, Step::B) => "a usos no EPB en paso B"@,
        (_, Step::A) => "a la red en paso A"@,
        (_, Step::B) => "a la red en paso B"@,
    }
}

/// What a failure says: which carrier, derivation, record or location it
/// is about.
pub open spec fn message_text(e: EpbdError) -> Seq<char> {
    match e {
        EpbdError::MissingGridFactor { carrier } => "No se han definido los factores de paso de red del vector \""@
            + carrier.name_spec() + ", RED, SUMINISTRO, A, fren?, fnren?\""@,
        EpbdError::MissingDerivationSource { carrier, dest, step } => "No se ha definido el factor de paso de suministro del vector "@
            + carrier.name_spec() + " y es necesario para definir el factor de exportación "@
            + export_words(dest, step),
        EpbdError::MalformedRecord { record } => "Formato incorrecto: "@ + record@,
        EpbdError::QuantityOutOfRange => "Valores demasiado grandes para el cálculo"@,
        EpbdError::UnknownLocation { location } => "Localización \""@ + location@
            + "\" desconocida al generar factores de paso"@,
    }
}

impl EpbdError {
    /// What the failure says.
    pub fn message(&self) -> (r: String)
        ensures
            r@ == message_text(*self),
    {
        match self {
            EpbdError::MissingGridFactor { carrier } => {
                let mut out: String = String::from_str(
                    "No se han definido los factores de paso de red del vector \"",
                );
                out.append(carrier.name());
                out.append(", RED, SUMINISTRO, A, fren?, fnren?\"");
                out
            },
            EpbdError::MissingDerivationSource { carrier, dest, step } => {
                let mut out: String = String::from_str(
                    "No se ha definido el factor de paso de suministro del vector ",
                );
                out.append(carrier.name());
                out.append(" y es necesario para definir el factor de exportación ");
                let to_nepb: bool = *dest == Dest::A_NEPB;
                let at_a: bool = *step == Step::A;
                if to_nepb {
                    if at_a {
                        out.append("a usos no EPB en paso A");
                    } else {
                        out.append("a usos no EPB en paso B");
                    }
                } else {
                    if at_a {
                        out.append("a la red en paso A");
                    } else {
                        out.append("a la red en paso B");
                    }
                }
                out
            },
            EpbdError::MalformedRecord { record } => {
                let mut out: String = String::from_str("Formato incorrecto: ");
                out.append(record.as_str());
                out
            },
            EpbdError::QuantityOutOfRange => String::from_str(
                "Valores demasiado grandes para el cálculo",
            ),
            EpbdError::UnknownLocation { location } => {
                let mut out: String = String::from_str("Localización \"");
                out.append(location.as_str());
                out.append("\" desconocida al generar factores de paso");
                out
            },
        }
    }
}

} // verus!
