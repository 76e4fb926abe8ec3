use si1145::registers::{
    Param, Register, COMMAND_ALS_AUTO, COMMAND_NOP, COMMAND_PARAM_SET, COMMAND_RESET,
    DEVICE_ADDRESS, HW_KEY_UNLOCK,
};

const ALL_REGISTERS: [(Register, u8); 18] = [
    (Register::IntCfg, 0x03),
    (Register::IrqEn, 0x04),
    (Register::IrqMode1, 0x05),
    (Register::IrqMode2, 0x06),
    (Register::HwKey, 0x07),
    (Register::MeasRate0, 0x08),
    (Register::MeasRate1, 0x09),
    (Register::Ucoef0, 0x13),
    (Register::Ucoef1, 0x14),
    (Register::Ucoef2, 0x15),
    (Register::Ucoef3, 0x16),
    (Register::ParamWr, 0x17),
    (Register::Command, 0x18),
    (Register::Response, 0x20),
    (Register::IrqStat, 0x21),
    (Register::AlsVisData0, 0x22),
    (Register::AlsIrData0, 0x24),
    (Register::UvIndex0, 0x2c),
];

#[test]
fn register_addresses_follow_the_map() {
    for (register, address) in ALL_REGISTERS {
        assert_eq!(register.address(), address);
    }
}

#[test]
fn no_two_registers_share_an_address() {
    for (at, (_, address)) in ALL_REGISTERS.iter().enumerate() {
        for (_, other) in &ALL_REGISTERS[at + 1..] {
            assert_ne!(address, other);
        }
    }
}

#[test]
fn parameter_identifiers() {
    assert_eq!(Param::ChannelList.id(), 0x01);
    assert_eq!(Param::AlsVisAdcMisc.id(), 0x12);
    assert_eq!(Param::AlsIrAdcMisc.id(), 0x1f);
}

#[test]
fn parameter_set_commands_carry_the_tag() {
    assert_eq!(Param::ChannelList.set_command(), 0xA1);
    assert_eq!(Param::AlsVisAdcMisc.set_command(), 0xB2);
    assert_eq!(Param::AlsIrAdcMisc.set_command(), 0xBF);
    for param in [Param::ChannelList, Param::AlsVisAdcMisc, Param::AlsIrAdcMisc] {
        assert_eq!(param.set_command(), param.id() | COMMAND_PARAM_SET);
    }
}

#[test]
fn fixed_bytes_of_the_chip() {
    assert_eq!(DEVICE_ADDRESS, 0x60);
    assert_eq!(COMMAND_NOP, 0x00);
    assert_eq!(COMMAND_RESET, 0x01);
    assert_eq!(COMMAND_ALS_AUTO, 0x0F);
    assert_eq!(COMMAND_PARAM_SET, 0xA0);
    assert_eq!(HW_KEY_UNLOCK, 0x17);
}
