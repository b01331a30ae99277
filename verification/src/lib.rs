//! Conversion of measurements between units of one family.
//!
//! A value is read from a text such as `100c`. Its unit names a family, and
//! within that family the quantity goes to the base unit and from there to
//! the unit that is asked for. The library finds the units and says which
//! numbers take the quantity there; the arithmetic on the quantity is the
//! caller's.

use vstd::prelude::*;

pub mod error;
pub mod exact;
pub mod family;
pub mod length;
pub mod registry;
pub mod temperature;
pub mod text;
pub mod unit;
pub mod value;

pub use error::{ConvertError, ParseValueError};
pub use family::{Conversion, Family};
pub use registry::Registry;
pub use unit::{Fraction, Scale, Unit};
pub use value::Value;

verus! {

/// How a quantity of the unit `from` becomes one of the unit `to`, among the
/// families that come with the library.
pub fn convert(from: &str, to: &str) -> (r: Result<Conversion, ConvertError>)
    ensures
        match registry::builtin().conversion(from@, to@) {
            Ok(c) => r == Ok::<Conversion, ConvertError>(c),
            Err(e) => r is Err && r->Err_0@ == e,
        },
{
    Registry::builtin().convert(from, to)
}

/// All units that come with the library, under the identifier of their
/// family: first the lengths, then the temperatures.
pub fn units() -> (r: Vec<(String, Vec<Unit>)>)
    ensures
        r.len() == registry::builtin().families.len(),
        forall|i: int|
            0 <= i < r.len() ==> (#[trigger] r[i]).0@ == registry::builtin().families[i].id
                && r[i].1@.map_values(|u: Unit| u@) == registry::builtin().families[i].units,
        forall|i: int, j: int| 0 <= i < j < r.len() ==> (#[trigger] r[i]).0@ != (#[trigger] r[j]).0@,
{
    let lengths = length::family();
    let temperatures = temperature::family();
    let mut out: Vec<(String, Vec<Unit>)> = Vec::new();
    out.push((lengths.id, lengths.units));
    out.push((temperatures.id, temperatures.units));
    proof {
        registry::lemma_builtin_well_formed();
        assert(registry::builtin().families[0].id != registry::builtin().families[1].id);
    }
    out
}

} // verus!
