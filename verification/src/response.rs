//! Decoding of the command-response register.

use vstd::prelude::*;

verus! {

/// Mask that keeps the status nibble of a response byte and drops the
/// rolling command counter in the low nibble.
pub const STATUS_MASK: u8 = 0xF0;

/// The faults the chip can report in its response register.
#[derive(Debug, Copy, Clone, PartialEq, Eq, Structural)]
pub enum ResponseError {
    InvalidComand,
    AdcOverflowPs1,
    AdcOverflowPs2,
    AdcOverflowPs3,
    AdcOverflowAlsVis,
    AdcOverflowAlsIr,
    AdcOverflowAux,
}

impl ResponseError {
    /// The byte that stands for this fault in the chip's code table.
    pub open spec fn spec_code(self) -> u8 {
        match self {
            ResponseError::InvalidComand => 0x80,
            ResponseError::AdcOverflowPs1 => 0x88,
            ResponseError::AdcOverflowPs2 => 0x89,
            ResponseError::AdcOverflowPs3 => 0x8a,
            ResponseError::AdcOverflowAlsVis => 0x8c,
            ResponseError::AdcOverflowAlsIr => 0x8d,
            ResponseError::AdcOverflowAux => 0x8e,
        }
    }

    /// The byte that stands for this fault in the chip's code table.
    #[verifier::when_used_as_spec(spec_code)]
    pub fn code(self) -> (code: u8)
        ensures
            code == self.spec_code(),
    {
        match self {
            ResponseError::InvalidComand => 0x80,
            ResponseError::AdcOverflowPs1 => 0x88,
            ResponseError::AdcOverflowPs2 => 0x89,
            ResponseError::AdcOverflowPs3 => 0x8a,
            ResponseError::AdcOverflowAlsVis => 0x8c,
            ResponseError::AdcOverflowAlsIr => 0x8d,
            ResponseError::AdcOverflowAux => 0x8e,
        }
    }

    /// The fault that `code` stands for, if the table has an entry for it.
    pub open spec fn spec_from_code(code: u8) -> Option<ResponseError> {
        if code == 0x80 {
            Some(ResponseError::InvalidComand)
        } else if code == 0x88 {
            Some(ResponseError::AdcOverflowPs1)
        } else if code == 0x89 {
            Some(ResponseError::AdcOverflowPs2)
        } else if code == 0x8a {
            Some(ResponseError::AdcOverflowPs3)
        } else if code == 0x8c {
            Some(ResponseError::AdcOverflowAlsVis)
        } else if code == 0x8d {
            Some(ResponseError::AdcOverflowAlsIr)
        } else if code == 0x8e {
            Some(ResponseError::AdcOverflowAux)
        } else {
            None
        }
    }

    /// Looks a fault up by its code. A byte without a table entry gives
    /// `None`.
    #[verifier::when_used_as_spec(spec_from_code)]
    pub fn from_code(code: u8) -> (fault: Option<ResponseError>)
        ensures
            fault == ResponseError::spec_from_code(code),
            fault matches Some(e) ==> e.spec_code() == code,
            fault is None ==> forall|e: ResponseError| e.spec_code() != code,
    {
        match code {
            0x80 => Some(ResponseError::InvalidComand),
            0x88 => Some(ResponseError::AdcOverflowPs1),
            0x89 => Some(ResponseError::AdcOverflowPs2),
            0x8a => Some(ResponseError::AdcOverflowPs3),
            0x8c => Some(ResponseError::AdcOverflowAlsVis),
            0x8d => Some(ResponseError::AdcOverflowAlsIr),
            0x8e => Some(ResponseError::AdcOverflowAux),
            _ => None,
        }
    }

    /// Every fault is found again under its own code.
    pub proof fn lemma_code_identifies(fault: ResponseError)
        ensures
            ResponseError::spec_from_code(fault.spec_code()) == Some(fault),
    {
    }
}

/// What a raw response byte means: the low nibble is masked off, and what is
/// left is looked up in the code table. A byte whose masked value has no
/// entry means success.
pub open spec fn decode(raw: u8) -> Result<(), ResponseError> {
    match ResponseError::spec_from_code(raw & STATUS_MASK) {
        Some(fault) => Err(fault),
        None => Ok(()),
    }
}

/// A byte read from the command-response register.
#[derive(Debug, Copy, Clone, PartialEq, Eq, Structural)]
pub struct ResponseRegister(pub u8);

impl ResponseRegister {
    /// Interprets the byte: `Ok` for success, or the fault the chip reports.
    pub fn as_result(self) -> (result: Result<(), ResponseError>)
        ensures
            result == decode(self.0),
    {
        let error_bits = self.0 & STATUS_MASK;
        match ResponseError::from_code(error_bits) {
            Some(fault) => Err(fault),
            None => Ok(()),
        }
    }
}

/// The rolling counter in the low nibble never changes the outcome: a byte
/// decodes as its status nibble alone does.
pub proof fn lemma_counter_is_ignored(raw: u8)
    ensures
        decode(raw) == decode(raw & STATUS_MASK),
{
    assert((raw & 0xF0u8) & 0xF0u8 == raw & 0xF0u8) by (bit_vector);
}

/// Decoding by ranges. Bytes `0x80` to `0x8f` report an invalid command;
/// every other byte, zero included, means success. Since the counter nibble
/// is masked off before the lookup, the overflow entries of the table, whose
/// low nibble is not zero, are never reported.
pub proof fn lemma_decode_by_range(raw: u8)
    ensures
        0x80 <= raw <= 0x8f ==> decode(raw) == Err::<(), ResponseError>(
            ResponseError::InvalidComand,
        ),
        !(0x80 <= raw <= 0x8f) ==> decode(raw) == Ok::<(), ResponseError>(()),
        decode(0x00) == Ok::<(), ResponseError>(()),
{
    assert(0x80u8 <= raw <= 0x8fu8 ==> raw & 0xF0u8 == 0x80u8) by (bit_vector);
    assert(!(0x80u8 <= raw <= 0x8fu8) ==> raw & 0xF0u8 != 0x80u8) by (bit_vector);
    assert((raw & 0xF0u8) & 0x0Fu8 == 0u8) by (bit_vector);
    let masked = raw & 0xF0u8;
    assert(masked != 0x88u8 && masked != 0x89u8 && masked != 0x8au8 && masked != 0x8cu8
        && masked != 0x8du8 && masked != 0x8eu8) by (bit_vector)
        requires
            masked & 0x0Fu8 == 0u8,
    ;
    assert(0x00u8 & 0xF0u8 == 0u8) by (bit_vector);
}

} // verus!
