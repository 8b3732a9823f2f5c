use vstd::prelude::*;

verus! {

/// One snapshot of the six numeric fields reported by the UPS status tool.
///
/// A record exists only when all six fields were extracted and converted
/// successfully; there is no partial record.
#[derive(Clone, Copy, Debug, PartialEq, Eq, Structural)]
pub struct StatusRecord {
    /// Input (utility) voltage, in volts.
    pub utility_voltage: u32,
    /// Output voltage, in volts.
    pub output_voltage: u32,
    /// Battery charge, in percent.
    pub battery_capacity: u8,
    /// Remaining runtime on battery, in minutes.
    pub remaining_runtime: u32,
    /// Load on the UPS, in watts.
    pub load_watts: u32,
    /// Load on the UPS, in percent of capacity.
    pub load_percent: u8,
}

/// Why a status text could not be turned into a `StatusRecord`.
#[derive(Clone, Copy, Debug, PartialEq, Eq, Structural)]
pub enum ParserError {
    /// The fixed multi-line layout was not found anywhere in the text.
    FormatMismatchError,
    /// A captured digit run does not fit the target field's numeric range.
    NumericConversionError,
}

} // verus!
