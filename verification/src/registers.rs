//! Register map, parameter identifiers and command opcodes of the chip.

use vstd::prelude::*;

verus! {

/// Seven-bit bus address at which the chip answers.
pub const DEVICE_ADDRESS: u8 = 0x60;

/// Command that does nothing but clear the response register.
pub const COMMAND_NOP: u8 = 0x00;

/// Command that puts the chip back into its power-on state.
pub const COMMAND_RESET: u8 = 0x01;

/// Command that starts autonomous, continuous ambient-light sampling.
pub const COMMAND_ALS_AUTO: u8 = 0x0F;

/// Tag that turns a parameter identifier into a "set parameter" command.
pub const COMMAND_PARAM_SET: u8 = 0xA0;

/// Value the hardware-key register must hold for normal operation.
pub const HW_KEY_UNLOCK: u8 = 0x17;

/// The byte-wide registers the driver touches.
#[derive(Clone, Copy, Debug, PartialEq, Eq, Structural)]
pub enum Register {
    IntCfg,
    IrqEn,
    IrqMode1,
    IrqMode2,
    HwKey,
    MeasRate0,
    MeasRate1,
    Ucoef0,
    Ucoef1,
    Ucoef2,
    Ucoef3,
    ParamWr,
    Command,
    Response,
    IrqStat,
    AlsVisData0,
    AlsIrData0,
    UvIndex0,
}

impl Register {
    /// The address of the register on the chip.
    pub open spec fn spec_address(self) -> u8 {
        match self {
            Register::IntCfg => 0x03,
            Register::IrqEn => 0x04,
            Register::IrqMode1 => 0x05,
            Register::IrqMode2 => 0x06,
            Register::HwKey => 0x07,
            Register::MeasRate0 => 0x08,
            Register::MeasRate1 => 0x09,
            Register::Ucoef0 => 0x13,
            Register::Ucoef1 => 0x14,
            Register::Ucoef2 => 0x15,
            Register::Ucoef3 => 0x16,
            Register::ParamWr => 0x17,
            Register::Command => 0x18,
            Register::Response => 0x20,
            Register::IrqStat => 0x21,
            Register::AlsVisData0 => 0x22,
            Register::AlsIrData0 => 0x24,
            Register::UvIndex0 => 0x2c,
        }
    }

    /// The address of the register on the chip.
    #[verifier::when_used_as_spec(spec_address)]
    pub fn address(self) -> (address: u8)
        ensures
            address == self.spec_address(),
    {
        match self {
            Register::IntCfg => 0x03,
            Register::IrqEn => 0x04,
            Register::IrqMode1 => 0x05,
            Register::IrqMode2 => 0x06,
            Register::HwKey => 0x07,
            Register::MeasRate0 => 0x08,
            Register::MeasRate1 => 0x09,
            Register::Ucoef0 => 0x13,
            Register::Ucoef1 => 0x14,
            Register::Ucoef2 => 0x15,
            Register::Ucoef3 => 0x16,
            Register::ParamWr => 0x17,
            Register::Command => 0x18,
            Register::Response => 0x20,
            Register::IrqStat => 0x21,
            Register::AlsVisData0 => 0x22,
            Register::AlsIrData0 => 0x24,
            Register::UvIndex0 => 0x2c,
        }
    }
}

/// The chip-internal parameters the driver sets. They live in their own
/// address space and are reached only through the parameter-write port.
#[derive(Clone, Copy, Debug, PartialEq, Eq, Structural)]
pub enum Param {
    ChannelList,
    AlsVisAdcMisc,
    AlsIrAdcMisc,
}

impl Param {
    /// The identifier of the parameter in the chip's parameter space.
    pub open spec fn spec_id(self) -> u8 {
        match self {
            Param::ChannelList => 0x01,
            Param::AlsVisAdcMisc => 0x12,
            Param::AlsIrAdcMisc => 0x1f,
        }
    }

    /// The identifier of the parameter in the chip's parameter space.
    #[verifier::when_used_as_spec(spec_id)]
    pub fn id(self) -> (id: u8)
        ensures
            id == self.spec_id(),
    {
        match self {
            Param::ChannelList => 0x01,
            Param::AlsVisAdcMisc => 0x12,
            Param::AlsIrAdcMisc => 0x1f,
        }
    }

    /// The command that stores the parameter-write port into this parameter:
    /// the identifier with the "set parameter" tag on top.
    pub open spec fn spec_set_command(self) -> u8 {
        self.spec_id() | COMMAND_PARAM_SET
    }

    /// The command that stores the parameter-write port into this parameter.
    #[verifier::when_used_as_spec(spec_set_command)]
    pub fn set_command(self) -> (opcode: u8)
        ensures
            opcode == self.spec_set_command(),
    {
        self.id() | COMMAND_PARAM_SET
    }
}

} // verus!
