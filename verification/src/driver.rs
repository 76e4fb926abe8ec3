//! The sensor handle.

use vstd::prelude::*;
use crate::bus::{
    extends, lemma_one_event, lemma_since_adds_up, since, Bus, Delay, Event, Port,
};
use crate::error::Error;
use crate::measure::{word_from_le, Illuminance, UvIndex};
use crate::protocol::{
    byte_read, lemma_performed_next, lemma_performed_nothing, lemma_run_of_one, light_run,
    parameter_script, performed, poll_run, reset_script, run, word_read, Step, ADC_HIGH_RANGE,
    CHANNELS_UV_IR_VIS, IRQ_ENABLE_ALS, RESET_SETTLE_MS,
};
use crate::registers::{
    Param, Register, COMMAND_ALS_AUTO, COMMAND_NOP, COMMAND_RESET, DEVICE_ADDRESS,
    HW_KEY_UNLOCK,
};
use crate::response::ResponseRegister;

verus! {

/// One SI1145 on a bus.
///
/// The handle owns its bus for as long as it lives and talks to the chip at
/// the one address the chip has. Every operation runs its transactions to the end or
/// to the first fault before it returns; nothing is retried.
pub struct Si1145<T: Bus> {
    device: Port<T>,
}

impl<T> Si1145<T> where T: Bus {
    /// Everything this handle has asked of its bus and of the delays lent to
    /// it, oldest first.
    pub closed spec fn history(&self) -> Seq<Event<T::Error>> {
        self.device.history()
    }

    /// Takes `device` as the bus of a chip and runs the reset sequence on it.
    ///
    /// With `Ok`, the timeline of the handle is a successful run of the reset
    /// script. With `Err`, the bus was driven through a run of the reset
    /// script that failed with that error, and is given up.
    pub fn new<D: Delay>(device: T, delay: &mut D) -> (result: Result<Self, Error<T::Error>>)
        ensures
            match result {
                Ok(sensor) => run(reset_script(), sensor.history(), Ok(())),
                Err(error) => exists|port: Port<T>|
                    run(reset_script(), #[trigger] port.history(), Err(error)),
            },
    {
        let mut si114 = Self { device: Port::new(device) };
        match si114.reset(delay) {
            Ok(unit) => {
                assert(unit == ());
                assert(since(Seq::<Event<T::Error>>::empty(), si114.history())
                    =~= si114.history());
                Ok(si114)
            },
            Err(error) => {
                assert(since(Seq::<Event<T::Error>>::empty(), si114.device.history())
                    =~= si114.device.history());
                Err(error)
            },
        }
    }

    /// Asks whether a measurement has finished since the last poll.
    ///
    /// The interrupt status is read and written back as read, so that each
    /// finished measurement is seen once.
    pub fn measurement_ready(&mut self) -> (result: Result<bool, Error<T::Error>>)
        ensures
            extends(old(self).history(), final(self).history()),
            poll_run(since(old(self).history(), final(self).history()), result),
    {
        let ghost start = self.history();
        let irq_status = match self.read_reg(Register::IrqStat) {
            Ok(status) => status,
            Err(e) => {
                return Err(e);
            },
        };
        let ghost middle = self.history();
        let written = self.write_reg(Register::IrqStat, irq_status);
        proof {
            lemma_since_adds_up(start, middle, self.history());
            lemma_run_of_one(
                Step::Write { register: Register::IrqStat, value: irq_status },
                since(middle, self.history()),
                written,
            );
        }
        match written {
            Ok(_) => Ok(irq_status != 0),
            Err(e) => Err(e),
        }
    }

    /// Brings the chip from whatever state it is in into autonomous
    /// sampling: reset command, settling pause, interrupt setup, hardware
    /// key, calibration coefficients, channel and range parameters, and the
    /// start command, each checked where the chip answers.
    ///
    /// The sequence stops at the first fault. After a failure the chip is in
    /// no defined configuration, and the way back is to run `reset` again.
    pub fn reset<D: Delay>(&mut self, delay: &mut D) -> (result: Result<(), Error<T::Error>>)
        ensures
            performed(old(self).history(), final(self).history(), reset_script(), result),
    {
        let ghost start = self.history();
        let ghost script = reset_script();
        let ghost mut at = start;
        proof {
            lemma_performed_nothing(script, start);
        }

        // Send a reset command to the chip.
        let step = self.write_reg(Register::Command, COMMAND_RESET);
        proof {
            lemma_performed_next(script, 0, seq![script[0]], start, at, self.history(), step);
            at = self.history();
        }
        if step.is_err() {
            return step;
        }
        // The chip must be left alone for at least a millisecond after a reset.
        self.pause(delay, RESET_SETTLE_MS);
        proof {
            lemma_performed_next(script, 1, seq![script[1]], start, at, self.history(), Ok(()));
            at = self.history();
        }

        let step = self.write_reg(Register::MeasRate0, 0);
        proof {
            lemma_performed_next(script, 2, seq![script[2]], start, at, self.history(), step);
            at = self.history();
        }
        if step.is_err() {
            return step;
        }
        let step = self.write_reg(Register::MeasRate1, 0);
        proof {
            lemma_performed_next(script, 3, seq![script[3]], start, at, self.history(), step);
            at = self.history();
        }
        if step.is_err() {
            return step;
        }
        let step = self.write_reg(Register::IrqEn, IRQ_ENABLE_ALS);
        proof {
            lemma_performed_next(script, 4, seq![script[4]], start, at, self.history(), step);
            at = self.history();
        }
        if step.is_err() {
            return step;
        }
        let step = self.write_reg(Register::IrqMode1, 0);
        proof {
            lemma_performed_next(script, 5, seq![script[5]], start, at, self.history(), step);
            at = self.history();
        }
        if step.is_err() {
            return step;
        }
        let step = self.write_reg(Register::IrqMode2, 0);
        proof {
            lemma_performed_next(script, 6, seq![script[6]], start, at, self.history(), step);
            at = self.history();
        }
        if step.is_err() {
            return step;
        }
        let step = self.write_reg(Register::IntCfg, 0);
        proof {
            lemma_performed_next(script, 7, seq![script[7]], start, at, self.history(), step);
            at = self.history();
        }
        if step.is_err() {
            return step;
        }
        let step = self.write_reg(Register::IrqStat, 0xFF);
        proof {
            lemma_performed_next(script, 8, seq![script[8]], start, at, self.history(), step);
            at = self.history();
        }
        if step.is_err() {
            return step;
        }

        // The hardware key allows normal operation.
        let step = self.write_reg(Register::HwKey, HW_KEY_UNLOCK);
        proof {
            lemma_performed_next(script, 9, seq![script[9]], start, at, self.history(), step);
            at = self.history();
        }
        if step.is_err() {
            return step;
        }

        // The ultraviolet coefficients are the defaults of the datasheet.
        let step = self.write_reg(Register::Ucoef0, 0x7B);
        proof {
            lemma_performed_next(script, 10, seq![script[10]], start, at, self.history(), step);
            at = self.history();
        }
        if step.is_err() {
            return step;
        }
        let step = self.write_reg(Register::Ucoef1, 0x6B);
        proof {
            lemma_performed_next(script, 11, seq![script[11]], start, at, self.history(), step);
            at = self.history();
        }
        if step.is_err() {
            return step;
        }
        let step = self.write_reg(Register::Ucoef2, 0x01);
        proof {
            lemma_performed_next(script, 12, seq![script[12]], start, at, self.history(), step);
            at = self.history();
        }
        if step.is_err() {
            return step;
        }
        let step = self.write_reg(Register::Ucoef3, 0x00);
        proof {
            lemma_performed_next(script, 13, seq![script[13]], start, at, self.history(), step);
            at = self.history();
        }
        if step.is_err() {
            return step;
        }

        // Measure ultraviolet, infrared and visible light.
        let step = self.write_parameter(Param::ChannelList, CHANNELS_UV_IR_VIS);
        proof {
            lemma_performed_next(
                script,
                14,
                parameter_script(Param::ChannelList, CHANNELS_UV_IR_VIS),
                start,
                at,
                self.history(),
                step,
            );
            at = self.history();
        }
        if step.is_err() {
            return step;
        }

        // Run both converters in high range, which divides their gain by 14.5.
        let step = self.write_parameter(Param::AlsVisAdcMisc, ADC_HIGH_RANGE);
        proof {
            lemma_performed_next(
                script,
                17,
                parameter_script(Param::AlsVisAdcMisc, ADC_HIGH_RANGE),
                start,
                at,
                self.history(),
                step,
            );
            at = self.history();
        }
        if step.is_err() {
            return step;
        }
        let step = self.write_parameter(Param::AlsIrAdcMisc, ADC_HIGH_RANGE);
        proof {
            lemma_performed_next(
                script,
                20,
                parameter_script(Param::AlsIrAdcMisc, ADC_HIGH_RANGE),
                start,
                at,
                self.history(),
                step,
            );
            at = self.history();
        }
        if step.is_err() {
            return step;
        }

        // Sample as fast as the chip can, on its own.
        let step = self.write_reg(Register::MeasRate0, 0xFF);
        proof {
            lemma_performed_next(script, 23, seq![script[23]], start, at, self.history(), step);
            at = self.history();
        }
        if step.is_err() {
            return step;
        }
        let step = self.write_reg(Register::Command, COMMAND_ALS_AUTO);
        proof {
            lemma_performed_next(script, 24, seq![script[24]], start, at, self.history(), step);
            at = self.history();
        }
        if step.is_err() {
            return step;
        }
        let step = self.check_response_register();
        proof {
            lemma_performed_next(script, 25, seq![script[25]], start, at, self.history(), step);
            assert(script.take(26) =~= script);
        }
        step
    }

    /// Reads the response register and judges it. If the chip reports a
    /// fault, a no-op command clears its fault latch before the fault is
    /// returned.
    fn check_response_register(&mut self) -> (result: Result<(), Error<T::Error>>)
        ensures
            performed(old(self).history(), final(self).history(), seq![Step::Check], result),
    {
        let ghost start = self.history();
        let raw = match self.read_reg(Register::Response) {
            Ok(raw) => raw,
            Err(e) => {
                proof {
                    lemma_run_of_one(Step::Check, since(start, self.history()), Err(e));
                }
                return Err(e);
            },
        };
        let ghost middle = self.history();
        match ResponseRegister(raw).as_result() {
            Ok(_) => {
                proof {
                    lemma_run_of_one(Step::Check, since(start, middle), Ok(()));
                }
                Ok(())
            },
            Err(fault) => {
                // Clear the error latch with a no-op command.
                let cleared = self.write_reg(Register::Command, COMMAND_NOP);
                let result = match cleared {
                    Ok(_) => Err(Error::Response(fault)),
                    Err(e) => Err(e),
                };
                proof {
                    lemma_since_adds_up(start, middle, self.history());
                    lemma_run_of_one(
                        Step::Write { register: Register::Command, value: COMMAND_NOP },
                        since(middle, self.history()),
                        cleared,
                    );
                    lemma_run_of_one(Step::Check, since(start, self.history()), result);
                }
                result
            },
        }
    }

    /// Sets a chip-internal parameter through the parameter-write port.
    fn write_parameter(&mut self, parameter: Param, value: u8) -> (result: Result<
        (),
        Error<T::Error>,
    >)
        ensures
            performed(
                old(self).history(),
                final(self).history(),
                parameter_script(parameter, value),
                result,
            ),
    {
        let ghost start = self.history();
        let ghost script = parameter_script(parameter, value);
        let ghost mut at = start;
        proof {
            lemma_performed_nothing(script, start);
        }
        let step = self.write_reg(Register::ParamWr, value);
        proof {
            lemma_performed_next(script, 0, seq![script[0]], start, at, self.history(), step);
            at = self.history();
        }
        if step.is_err() {
            return step;
        }
        let step = self.write_reg(Register::Command, parameter.set_command());
        proof {
            lemma_performed_next(script, 1, seq![script[1]], start, at, self.history(), step);
            at = self.history();
        }
        if step.is_err() {
            return step;
        }
        let step = self.check_response_register();
        proof {
            lemma_performed_next(script, 2, seq![script[2]], start, at, self.history(), step);
            assert(script.take(3) =~= script);
        }
        step
    }

    /// Lets `ms` milliseconds pass.
    fn pause<D: Delay>(&mut self, delay: &mut D, ms: u32)
        ensures
            performed(
                old(self).history(),
                final(self).history(),
                seq![Step::Pause { ms }],
                Ok(()),
            ),
    {
        let ghost start = self.history();
        self.device.pause(delay, ms);
        proof {
            lemma_one_event(start, self.history(), Event::Delay { ms });
            lemma_run_of_one(Step::Pause { ms }, since(start, self.history()), Ok(()));
        }
    }

    /// Writes one byte to one register.
    fn write_reg(&mut self, reg: Register, value: u8) -> (result: Result<(), Error<T::Error>>)
        ensures
            performed(
                old(self).history(),
                final(self).history(),
                seq![Step::Write { register: reg, value }],
                result,
            ),
    {
        let ghost start = self.history();
        let bytes: [u8; 2] = [reg.address(), value];
        let sent = self.device.write(DEVICE_ADDRESS, &bytes);
        let result = match sent {
            Ok(_) => Ok(()),
            Err(e) => Err(Error::from(e)),
        };
        proof {
            assert(bytes@ =~= seq![reg.spec_address(), value]);
            lemma_one_event(start, self.history(), self.history().last());
            lemma_run_of_one(
                Step::Write { register: reg, value },
                since(start, self.history()),
                result,
            );
        }
        result
    }

    /// Reads the two bytes that start at a register as one 16-bit value,
    /// least significant byte first.
    fn read_reg_u16(&mut self, register: Register) -> (result: Result<u16, Error<T::Error>>)
        ensures
            extends(old(self).history(), final(self).history()),
            word_read(register, since(old(self).history(), final(self).history()), result),
    {
        let ghost start = self.history();
        let pointer: [u8; 1] = [register.address()];
        let mut bytes: [u8; 2] = [0u8; 2];
        let got = self.device.write_read(DEVICE_ADDRESS, &pointer, &mut bytes);
        proof {
            assert(pointer@ =~= seq![register.spec_address()]);
            lemma_one_event(start, self.history(), self.history().last());
        }
        match got {
            Ok(_) => Ok(word_from_le(bytes)),
            Err(e) => Err(Error::from(e)),
        }
    }

    /// Reads the byte in a register.
    fn read_reg(&mut self, register: Register) -> (result: Result<u8, Error<T::Error>>)
        ensures
            extends(old(self).history(), final(self).history()),
            byte_read(register, since(old(self).history(), final(self).history()), result),
    {
        let ghost start = self.history();
        let pointer: [u8; 1] = [register.address()];
        let mut bytes: [u8; 1] = [0u8; 1];
        let got = self.device.write_read(DEVICE_ADDRESS, &pointer, &mut bytes);
        proof {
            assert(pointer@ =~= seq![register.spec_address()]);
            lemma_one_event(start, self.history(), self.history().last());
        }
        match got {
            Ok(_) => Ok(bytes[0]),
            Err(e) => Err(Error::from(e)),
        }
    }

    /// Reads the ultraviolet index, which the chip reports in hundredths.
    pub fn read_uv_index(&mut self) -> (result: Result<UvIndex, Error<T::Error>>)
        ensures
            extends(old(self).history(), final(self).history()),
            word_read(
                Register::UvIndex0,
                since(old(self).history(), final(self).history()),
                match result {
                    Ok(index) => Ok(index.hundredths),
                    Err(e) => Err(e),
                },
            ),
    {
        match self.read_reg_u16(Register::UvIndex0) {
            Ok(uv_register) => Ok(UvIndex { hundredths: uv_register }),
            Err(e) => Err(e),
        }
    }

    /// Reads the raw counts of the visible-light converter.
    pub fn read_visible(&mut self) -> (result: Result<u16, Error<T::Error>>)
        ensures
            extends(old(self).history(), final(self).history()),
            word_read(
                Register::AlsVisData0,
                since(old(self).history(), final(self).history()),
                result,
            ),
    {
        self.read_reg_u16(Register::AlsVisData0)
    }

    /// Reads the raw counts of the infrared converter.
    pub fn read_infrared(&mut self) -> (result: Result<u16, Error<T::Error>>)
        ensures
            extends(old(self).history(), final(self).history()),
            word_read(
                Register::AlsIrData0,
                since(old(self).history(), final(self).history()),
                result,
            ),
    {
        self.read_reg_u16(Register::AlsIrData0)
    }

    /// Reads both converters and takes the dark level off each.
    pub fn read_lux(&mut self) -> (result: Result<Illuminance, Error<T::Error>>)
        ensures
            extends(old(self).history(), final(self).history()),
            light_run(since(old(self).history(), final(self).history()), result),
    {
        let ghost start = self.history();
        // Counts of 256 and below stand for darkness: the zero point is at 256.
        let als_vis = match self.read_reg_u16(Register::AlsVisData0) {
            Ok(counts) => counts,
            Err(e) => {
                return Err(e);
            },
        };
        let ghost middle = self.history();
        let als_ir = match self.read_reg_u16(Register::AlsIrData0) {
            Ok(counts) => counts,
            Err(e) => {
                proof {
                    lemma_since_adds_up(start, middle, self.history());
                }
                return Err(e);
            },
        };
        proof {
            lemma_since_adds_up(start, middle, self.history());
        }
        Ok(Illuminance::from_counts(als_vis, als_ir))
    }
}

} // verus!
