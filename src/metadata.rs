//! Curves, proving systems, and what a backend reports about itself.
use crate::value::{decimal_value, is_decimal_text, FieldValue};
use vstd::prelude::*;
use vstd::string::is_ascii;

verus! {

/// The elliptic curves that a backend may work over.
#[derive(Debug, Clone, Copy, PartialEq, Eq, Structural)]
pub enum CurveType {
    Mock,
    BN254,
    BLS12_381,
    BLS24_317,
    BLS12_377,
    BW6_761,
    BLS24_315,
    BW6_633,
}

/// The proving systems that a backend may implement.
#[derive(Debug, Clone, Copy, PartialEq, Eq, Structural)]
pub enum ProvingSystem {
    Mock,
    Groth16,
    Plonk,
}

/// The stable numeric identifier by which a backend knows a curve.
pub open spec fn spec_curve_id(c: CurveType) -> u64 {
    match c {
        CurveType::Mock => 0,
        CurveType::BN254 => 1,
        CurveType::BLS12_381 => 2,
        CurveType::BLS24_317 => 3,
        CurveType::BLS12_377 => 4,
        CurveType::BW6_761 => 5,
        CurveType::BLS24_315 => 6,
        CurveType::BW6_633 => 7,
    }
}

/// The decimal text of the order of each curve's scalar field; for the mock curve, 2^256 - 1.
pub open spec fn modulus_text(c: CurveType) -> Seq<u8> {
    let t = match c {
        CurveType::Mock => "115792089237316195423570985008687907853269984665640564039457584007913129639935"@,
        CurveType::BN254 => "21888242871839275222246405745257275088548364400416034343698204186575808495617"@,
        CurveType::BLS12_381 => "52435875175126190479447740508185965837690552500527637822603658699938581184513"@,
        CurveType::BLS24_317 => "30869589236456844204538189757527902584594726589286811523515204428962673459201"@,
        CurveType::BLS12_377 => "8444461749428370424248824938781546531375899335154063827935233455917409239041"@,
        CurveType::BW6_761 => "258664426012969094010652733694893533536393512754914660539884262666720468348340822774968888139573360124440321458177"@,
        CurveType::BLS24_315 => "11502027791375260645628074404575422495959608200132055716665986169834464870401"@,
        CurveType::BW6_633 => "39705142709513438335025689890408969744933502416914749335064285505637884093126342347073617133569"@,
    };
    t.map_values(|c: char| c as u8)
}

/// Reads a decimal literal of this crate, whose text is known to be a decimal number.
fn modulus_of(text: &str) -> (r: FieldValue)
    requires
        is_ascii(text),
        is_decimal_text(text@.map_values(|c: char| c as u8)),
    ensures
        r@ == decimal_value(text@.map_values(|c: char| c as u8)),
{
    proof {
        vstd::string::is_ascii_spec_bytes(text);
    }
    let bytes = text.as_bytes();
    assert(bytes@ =~= text@.map_values(|c: char| c as u8));
    FieldValue::parse_decimal(bytes).unwrap()
}

impl CurveType {
    pub fn curve_id(&self) -> (r: u64)
        ensures
            r == spec_curve_id(*self),
    {
        match self {
            CurveType::Mock => 0,
            CurveType::BN254 => 1,
            CurveType::BLS12_381 => 2,
            CurveType::BLS24_317 => 3,
            CurveType::BLS12_377 => 4,
            CurveType::BW6_761 => 5,
            CurveType::BLS24_315 => 6,
            CurveType::BW6_633 => 7,
        }
    }

    /// The order of the curve's scalar field.
    pub fn field(&self) -> (r: FieldValue)
        ensures
            r@ == decimal_value(modulus_text(*self)),
    {
        let t = match self {
            CurveType::Mock => {
                proof {
                    reveal_strlit("115792089237316195423570985008687907853269984665640564039457584007913129639935");
                }
                "115792089237316195423570985008687907853269984665640564039457584007913129639935"
            },
            CurveType::BN254 => {
                proof {
                    reveal_strlit("21888242871839275222246405745257275088548364400416034343698204186575808495617");
                }
                "21888242871839275222246405745257275088548364400416034343698204186575808495617"
            },
            CurveType::BLS12_381 => {
                proof {
                    reveal_strlit("52435875175126190479447740508185965837690552500527637822603658699938581184513");
                }
                "52435875175126190479447740508185965837690552500527637822603658699938581184513"
            },
            CurveType::BLS24_317 => {
                proof {
                    reveal_strlit("30869589236456844204538189757527902584594726589286811523515204428962673459201");
                }
                "30869589236456844204538189757527902584594726589286811523515204428962673459201"
            },
            CurveType::BLS12_377 => {
                proof {
                    reveal_strlit("8444461749428370424248824938781546531375899335154063827935233455917409239041");
                }
                "8444461749428370424248824938781546531375899335154063827935233455917409239041"
            },
            CurveType::BW6_761 => {
                proof {
                    reveal_strlit("258664426012969094010652733694893533536393512754914660539884262666720468348340822774968888139573360124440321458177");
                }
                "258664426012969094010652733694893533536393512754914660539884262666720468348340822774968888139573360124440321458177"
            },
            CurveType::BLS24_315 => {
                proof {
                    reveal_strlit("11502027791375260645628074404575422495959608200132055716665986169834464870401");
                }
                "11502027791375260645628074404575422495959608200132055716665986169834464870401"
            },
            CurveType::BW6_633 => {
                proof {
                    reveal_strlit("39705142709513438335025689890408969744933502416914749335064285505637884093126342347073617133569");
                }
                "39705142709513438335025689890408969744933502416914749335064285505637884093126342347073617133569"
            },
        };
        modulus_of(t)
    }
}

/// What a backend reports about itself.
#[derive(Debug, Clone, PartialEq, Eq)]
pub struct MetadataInfo {
    pub field: FieldValue,
    pub curve: CurveType,
    pub proving_system: ProvingSystem,
}

impl MetadataInfo {
    /// The metadata of a proving system over a curve, with that curve's field order.
    pub fn for_curve(curve: CurveType, proving_system: ProvingSystem) -> (r: MetadataInfo)
        ensures
            r.field@ == decimal_value(modulus_text(curve)),
            r.curve == curve,
            r.proving_system == proving_system,
    {
        MetadataInfo { field: curve.field(), curve, proving_system }
    }
}

/// A type that stands for one curve, for backends that fix their curve by a type parameter.
pub trait CurveId {
    fn curve_type() -> CurveType;

    /// The identifier by which a backend knows the curve.
    fn curve_id() -> u64 {
        Self::curve_type().curve_id()
    }

    /// The order of the curve's scalar field.
    fn field() -> FieldValue {
        Self::curve_type().field()
    }
}

#[derive(Debug, Clone, Copy)]
pub struct BN254;

impl CurveId for BN254 {
    fn curve_type() -> CurveType {
        CurveType::BN254
    }
}

#[derive(Debug, Clone, Copy)]
pub struct BLS12_381;

impl CurveId for BLS12_381 {
    fn curve_type() -> CurveType {
        CurveType::BLS12_381
    }
}

#[derive(Debug, Clone, Copy)]
pub struct BLS24_317;

impl CurveId for BLS24_317 {
    fn curve_type() -> CurveType {
        CurveType::BLS24_317
    }
}

#[derive(Debug, Clone, Copy)]
pub struct BLS12_377;

impl CurveId for BLS12_377 {
    fn curve_type() -> CurveType {
        CurveType::BLS12_377
    }
}

#[derive(Debug, Clone, Copy)]
pub struct BW6_761;

impl CurveId for BW6_761 {
    fn curve_type() -> CurveType {
        CurveType::BW6_761
    }
}

#[derive(Debug, Clone, Copy)]
pub struct BLS24_315;

impl CurveId for BLS24_315 {
    fn curve_type() -> CurveType {
        CurveType::BLS24_315
    }
}

#[derive(Debug, Clone, Copy)]
pub struct BW6_633;

impl CurveId for BW6_633 {
    fn curve_type() -> CurveType {
        CurveType::BW6_633
    }
}

} // verus!
