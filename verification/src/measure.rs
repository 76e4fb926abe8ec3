//! From raw register values to physical quantities.
//!
//! The chip reports integers. The quantities derived from them are kept as
//! exact integers in a finer unit, so that nothing is rounded: the
//! ultraviolet index in hundredths, illuminance in thousandths of a lux.

use vstd::prelude::*;

verus! {

/// Counts the converters report in darkness. A reading at or below this
/// level means "no light".
pub const DARK_COUNTS: u16 = 256;

/// Thousandths of a lux per visible count above dark: the responsivity of
/// 5.41 lux per count of a sensor without cover glass, times 14.5 to make up
/// for the high-range mode the converters run in.
pub const VISIBLE_MILLILUX_PER_COUNT: i64 = 78445;

/// Thousandths of a lux taken off per infrared count above dark (0.08 lux
/// per count).
pub const INFRARED_MILLILUX_PER_COUNT: i64 = 80;

/// The 16-bit value that the bytes `low` and `high` form when `low` comes
/// first on the wire.
pub open spec fn word(low: u8, high: u8) -> u16 {
    (low + 256 * high) as u16
}

/// Puts two bytes together, least significant first.
pub fn word_from_le(bytes: [u8; 2]) -> (value: u16)
    ensures
        value == word(bytes[0], bytes[1]),
        value == bytes[0] + 256 * bytes[1],
{
    let low: u16 = bytes[0] as u16;
    let high: u16 = bytes[1] as u16;
    high * 256 + low
}

/// How far `raw` lies above the dark level, and zero if it does not.
pub open spec fn spec_above_dark(raw: u16) -> u16 {
    if raw > DARK_COUNTS {
        (raw - DARK_COUNTS) as u16
    } else {
        0
    }
}

/// How far `raw` lies above the dark level, and zero if it does not.
#[verifier::when_used_as_spec(spec_above_dark)]
pub fn above_dark(raw: u16) -> (counts: u16)
    ensures
        counts == spec_above_dark(raw),
{
    raw.saturating_sub(DARK_COUNTS)
}

/// An ultraviolet index, in hundredths.
#[derive(Debug, Copy, Clone, PartialEq, Eq, Structural)]
pub struct UvIndex {
    pub hundredths: u16,
}

impl UvIndex {
    /// The digits before the decimal point.
    pub fn whole(self) -> (whole: u16)
        ensures
            whole == self.hundredths / 100,
    {
        self.hundredths / 100
    }

    /// The two digits behind the decimal point.
    pub fn fraction(self) -> (fraction: u16)
        ensures
            fraction == self.hundredths % 100,
            100 * (self.hundredths / 100) + fraction == self.hundredths,
    {
        self.hundredths % 100
    }
}

/// A light reading: visible and infrared counts above the dark level.
#[derive(Debug, Copy, Clone, PartialEq, Eq, Structural)]
pub struct Illuminance {
    pub visible: u16,
    pub infrared: u16,
}

impl Illuminance {
    /// The reading that the raw converter counts `visible` and `infrared`
    /// stand for.
    pub open spec fn of_counts(visible: u16, infrared: u16) -> Illuminance {
        Illuminance { visible: spec_above_dark(visible), infrared: spec_above_dark(infrared) }
    }

    /// Takes the dark level off both raw counts.
    #[verifier::when_used_as_spec(of_counts)]
    pub fn from_counts(visible: u16, infrared: u16) -> (reading: Illuminance)
        ensures
            reading == Illuminance::of_counts(visible, infrared),
    {
        Illuminance { visible: above_dark(visible), infrared: above_dark(infrared) }
    }

    /// The illuminance in thousandths of a lux: 78.445 lux for each visible
    /// count less 0.08 lux for each infrared count.
    pub open spec fn spec_millilux(self) -> int {
        VISIBLE_MILLILUX_PER_COUNT * self.visible - INFRARED_MILLILUX_PER_COUNT * self.infrared
    }

    /// The illuminance in thousandths of a lux. The value is passed on as the
    /// formula gives it, also where strong infrared makes it negative.
    pub fn millilux(self) -> (millilux: i64)
        ensures
            millilux == self.spec_millilux(),
    {
        VISIBLE_MILLILUX_PER_COUNT * (self.visible as i64) - INFRARED_MILLILUX_PER_COUNT * (
        self.infrared as i64)
    }
}

/// Counts at or below the dark level read as no light, and above it every
/// count is one more: the corrected value never exceeds the raw one and is
/// never negative.
pub proof fn lemma_above_dark(raw: u16)
    ensures
        raw <= DARK_COUNTS ==> spec_above_dark(raw) == 0,
        raw > DARK_COUNTS ==> spec_above_dark(raw) + DARK_COUNTS == raw,
        0 <= spec_above_dark(raw) <= raw,
{
}

} // verus!
