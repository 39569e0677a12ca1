use vstd::prelude::*;

verus! {

/// A register field that can be out of range when a register is encoded.
#[derive(Debug, Clone, Copy, PartialEq, Eq, Structural)]
pub enum RegField {
    PowerUnit,
    EnergyUnit,
    TimeUnit,
    Pl1,
    TimePl1,
    Pl2,
    TimePl2,
}

/// Errors of the register codecs and of the unit conversions.
#[derive(Debug, Clone, Copy, PartialEq, Eq, Structural)]
pub enum PowerError {
    /// A field does not fit its bit width.
    Range(RegField),
    /// An input to a conversion lies outside its domain (a time window that
    /// is not positive).
    Domain,
}

} // verus!
