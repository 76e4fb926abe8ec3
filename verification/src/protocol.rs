//! The register-level sequences of the chip, as scripts, and what it means
//! for a stretch of a timeline to be a run of a script.
//!
//! A script is a list of steps. A run carries the steps out in order, one
//! event each, and stops at the first step that fails: at a bus fault, or at
//! a response check that finds a fault code. A failed check is followed by
//! one more write, the no-op command that clears the chip's fault latch, and
//! nothing else.

use vstd::prelude::*;
use crate::error::Error;
use crate::bus::{extends, lemma_since_adds_up, since, Event};
use crate::registers::{
    Param, Register, COMMAND_ALS_AUTO, COMMAND_NOP, COMMAND_RESET, DEVICE_ADDRESS,
    HW_KEY_UNLOCK,
};
use crate::measure::{word, Illuminance};
use crate::response::{decode, ResponseError};

verus! {

/// How long the chip is left alone after a reset command, in milliseconds.
/// The chip asks for one; the driver waits two.
pub const RESET_SETTLE_MS: u32 = 2;

/// Channel list with the ultraviolet, infrared and visible channels on.
pub const CHANNELS_UV_IR_VIS: u8 = 0b1011_0000;

/// Analog front-end setting for high signal range (gain divided by 14.5).
pub const ADC_HIGH_RANGE: u8 = 0b0010_0000;

/// Interrupt enable with the ambient-light interrupt on and the others off.
pub const IRQ_ENABLE_ALS: u8 = 0b1;

/// One step of a script.
pub enum Step {
    /// Write `value` to `register`.
    Write { register: Register, value: u8 },
    /// Let `ms` milliseconds pass.
    Pause { ms: u32 },
    /// Read the response register and stop if it reports a fault.
    Check,
}

/// What a step made of the events at the head of a trace.
pub enum Outcome<E> {
    /// The step succeeded and took one event.
    Passed,
    /// The step failed with `error` and took `used` events, after which
    /// nothing more may follow.
    Stopped { used: nat, error: Error<E> },
    /// The trace does not start with what the step does.
    Mismatch,
}

/// `event` is a write of `value` to `register` of the chip.
pub open spec fn is_register_write<E>(event: Event<E>, register: Register, value: u8) -> bool {
    event matches Event::Write { address, bytes, .. } && address == DEVICE_ADDRESS && bytes
        =~= seq![register.spec_address(), value]
}

/// `event` is a read of `count` bytes that starts at `register` of the chip:
/// the register address is written, and the bytes are read back in the same
/// transaction.
pub open spec fn is_register_read<E>(event: Event<E>, register: Register, count: nat) -> bool {
    event matches Event::WriteRead { address, bytes, reply } && address == DEVICE_ADDRESS
        && bytes =~= seq![register.spec_address()] && (reply matches Ok(data) ==> data.len()
        == count)
}

/// Judges one step against the head of `trace`.
pub open spec fn outcome<E>(step: Step, trace: Seq<Event<E>>) -> Outcome<E> {
    if trace.len() == 0 {
        Outcome::Mismatch
    } else {
        match step {
            Step::Write { register, value } => {
                if is_register_write(trace[0], register, value) {
                    match trace[0].fault() {
                        None => Outcome::Passed,
                        Some(e) => Outcome::Stopped { used: 1, error: Error::Interface(e) },
                    }
                } else {
                    Outcome::Mismatch
                }
            },
            Step::Pause { ms } => {
                if trace[0] == (Event::<E>::Delay { ms }) {
                    Outcome::Passed
                } else {
                    Outcome::Mismatch
                }
            },
            Step::Check => {
                if is_register_read(trace[0], Register::Response, 1) {
                    match trace[0] {
                        Event::WriteRead { reply: Ok(data), .. } => match decode(data[0]) {
                            Ok(_) => Outcome::Passed,
                            Err(code) => {
                                if trace.len() >= 2 && is_register_write(
                                    trace[1],
                                    Register::Command,
                                    COMMAND_NOP,
                                ) {
                                    match trace[1].fault() {
                                        None => Outcome::Stopped {
                                            used: 2,
                                            error: Error::Response(code),
                                        },
                                        Some(e) => Outcome::Stopped {
                                            used: 2,
                                            error: Error::Interface(e),
                                        },
                                    }
                                } else {
                                    Outcome::Mismatch
                                }
                            },
                        },
                        Event::WriteRead { reply: Err(e), .. } => Outcome::Stopped {
                            used: 1,
                            error: Error::Interface(e),
                        },
                        _ => Outcome::Mismatch,
                    }
                } else {
                    Outcome::Mismatch
                }
            },
        }
    }
}

/// `trace` is a run of `steps` that ended with `result`.
///
/// With `Ok`, every step passed and the trace holds one event per step. With
/// `Err`, the steps before some step passed, that step stopped the run with
/// the error, and the trace ends with the events of that step.
#[verifier::opaque]
pub open spec fn run<E>(steps: Seq<Step>, trace: Seq<Event<E>>, result: Result<(), Error<E>>) -> bool
    decreases steps.len(),
{
    if steps.len() == 0 {
        trace.len() == 0 && result is Ok
    } else {
        match outcome(steps[0], trace) {
            Outcome::Passed => run(steps.drop_first(), trace.drop_first(), result),
            Outcome::Stopped { used, error } => trace.len() == used && result == Err::<
                (),
                Error<E>,
            >(error),
            Outcome::Mismatch => false,
        }
    }
}

/// Between the timelines `before` and `after`, exactly a run of `steps` took
/// place, and it ended with `result`.
pub open spec fn performed<E>(
    before: Seq<Event<E>>,
    after: Seq<Event<E>>,
    steps: Seq<Step>,
    result: Result<(), Error<E>>,
) -> bool {
    extends(before, after) && run(steps, since(before, after), result)
}

/// The script that sets `param` to `value`: the value goes to the
/// parameter-write port, the set command for the parameter goes to the
/// command register, and the response is checked.
pub open spec fn parameter_script(param: Param, value: u8) -> Seq<Step> {
    seq![
        Step::Write { register: Register::ParamWr, value },
        Step::Write { register: Register::Command, value: param.spec_set_command() },
        Step::Check,
    ]
}

/// The script that brings the chip from any state into autonomous sampling.
pub open spec fn reset_script() -> Seq<Step> {
    seq![
        Step::Write { register: Register::Command, value: COMMAND_RESET },
        Step::Pause { ms: RESET_SETTLE_MS },
        Step::Write { register: Register::MeasRate0, value: 0 },
        Step::Write { register: Register::MeasRate1, value: 0 },
        Step::Write { register: Register::IrqEn, value: IRQ_ENABLE_ALS },
        Step::Write { register: Register::IrqMode1, value: 0 },
        Step::Write { register: Register::IrqMode2, value: 0 },
        Step::Write { register: Register::IntCfg, value: 0 },
        Step::Write { register: Register::IrqStat, value: 0xFF },
        Step::Write { register: Register::HwKey, value: HW_KEY_UNLOCK },
        // The ultraviolet calibration coefficients, datasheet defaults.
        Step::Write { register: Register::Ucoef0, value: 0x7B },
        Step::Write { register: Register::Ucoef1, value: 0x6B },
        Step::Write { register: Register::Ucoef2, value: 0x01 },
        Step::Write { register: Register::Ucoef3, value: 0x00 },
        Step::Write { register: Register::ParamWr, value: CHANNELS_UV_IR_VIS },
        Step::Write {
            register: Register::Command,
            value: Param::ChannelList.spec_set_command(),
        },
        Step::Check,
        Step::Write { register: Register::ParamWr, value: ADC_HIGH_RANGE },
        Step::Write {
            register: Register::Command,
            value: Param::AlsVisAdcMisc.spec_set_command(),
        },
        Step::Check,
        Step::Write { register: Register::ParamWr, value: ADC_HIGH_RANGE },
        Step::Write {
            register: Register::Command,
            value: Param::AlsIrAdcMisc.spec_set_command(),
        },
        Step::Check,
        Step::Write { register: Register::MeasRate0, value: 0xFF },
        Step::Write { register: Register::Command, value: COMMAND_ALS_AUTO },
        Step::Check,
    ]
}

/// `trace` is one read of the byte in `register`, and `result` is what the
/// read gave: the byte, or the fault of the bus.
pub open spec fn byte_read<E>(
    register: Register,
    trace: Seq<Event<E>>,
    result: Result<u8, Error<E>>,
) -> bool {
    trace.len() == 1 && is_register_read(trace[0], register, 1) && match trace[0] {
        Event::WriteRead { reply: Ok(data), .. } => result == Ok::<u8, Error<E>>(data[0]),
        Event::WriteRead { reply: Err(e), .. } => result == Err::<u8, Error<E>>(
            Error::Interface(e),
        ),
        _ => false,
    }
}

/// `trace` is one read of the two bytes that start at `register`, and
/// `result` is what the read gave: the bytes taken as a 16-bit value, least
/// significant byte first, or the fault of the bus.
pub open spec fn word_read<E>(
    register: Register,
    trace: Seq<Event<E>>,
    result: Result<u16, Error<E>>,
) -> bool {
    trace.len() == 1 && is_register_read(trace[0], register, 2) && match trace[0] {
        Event::WriteRead { reply: Ok(data), .. } => result == Ok::<u16, Error<E>>(
            word(data[0], data[1]),
        ),
        Event::WriteRead { reply: Err(e), .. } => result == Err::<u16, Error<E>>(
            Error::Interface(e),
        ),
        _ => false,
    }
}

/// `trace` is one poll for a finished measurement: the interrupt status is
/// read and the very byte that was read is written back, which clears
/// exactly the bits that were seen. `result` says whether any bit was set. A
/// bus fault at either transaction ends the poll with that fault.
pub open spec fn poll_run<E>(trace: Seq<Event<E>>, result: Result<bool, Error<E>>) -> bool {
    trace.len() >= 1 && is_register_read(trace[0], Register::IrqStat, 1) && match trace[0] {
        Event::WriteRead { reply: Ok(data), .. } => {
            &&& trace.len() == 2
            &&& is_register_write(trace[1], Register::IrqStat, data[0])
            &&& result == match trace[1].fault() {
                None => Ok::<bool, Error<E>>(data[0] != 0),
                Some(e) => Err::<bool, Error<E>>(Error::Interface(e)),
            }
        },
        Event::WriteRead { reply: Err(e), .. } => trace.len() == 1 && result == Err::<
            bool,
            Error<E>,
        >(Error::Interface(e)),
        _ => false,
    }
}

/// `trace` is one light reading: the visible counts are read, then the
/// infrared counts, and `result` is the reading they stand for. A bus fault
/// at either read ends the reading with that fault.
pub open spec fn light_run<E>(trace: Seq<Event<E>>, result: Result<Illuminance, Error<E>>) -> bool {
    trace.len() >= 1 && is_register_read(trace[0], Register::AlsVisData0, 2) && match trace[0] {
        Event::WriteRead { reply: Ok(visible), .. } => {
            &&& trace.len() == 2
            &&& is_register_read(trace[1], Register::AlsIrData0, 2)
            &&& match trace[1] {
                Event::WriteRead { reply: Ok(infrared), .. } => result == Ok::<
                    Illuminance,
                    Error<E>,
                >(
                    Illuminance::of_counts(
                        word(visible[0], visible[1]),
                        word(infrared[0], infrared[1]),
                    ),
                ),
                Event::WriteRead { reply: Err(e), .. } => result == Err::<
                    Illuminance,
                    Error<E>,
                >(Error::Interface(e)),
                _ => false,
            }
        },
        Event::WriteRead { reply: Err(e), .. } => trace.len() == 1 && result == Err::<
            Illuminance,
            Error<E>,
        >(Error::Interface(e)),
        _ => false,
    }
}

/// What the interrupt status holds once `written` has been written to it
/// while it held `status`: the chip clears the bits written as one and leaves
/// the others standing.
pub open spec fn acknowledged(status: u8, written: u8) -> u8 {
    status & !written
}

/// A poll takes away all it saw and nothing else. Writing the status back as
/// it was read clears every bit of it, so that a finished measurement is
/// seen once; a bit that the chip raised between the read and the write
/// stays for the next poll.
pub proof fn lemma_poll_acknowledges(seen: u8, raised: u8)
    ensures
        acknowledged(seen, seen) == 0,
        acknowledged(seen | raised, seen) == raised & !seen,
{
    assert(seen & !seen == 0) by (bit_vector);
    assert((seen | raised) & !seen == raised & !seen) by (bit_vector);
}

/// A run of a single step, spelled out: the step passed on a trace of one
/// event, or it stopped the run on a trace of just its own events.
pub proof fn lemma_run_of_one<E>(step: Step, trace: Seq<Event<E>>, result: Result<(), Error<E>>)
    ensures
        run(seq![step], trace, result) <==> match outcome(step, trace) {
            Outcome::Passed => trace.len() == 1 && result is Ok,
            Outcome::Stopped { used, error } => trace.len() == used && result == Err::<
                (),
                Error<E>,
            >(error),
            Outcome::Mismatch => false,
        },
{
    reveal_with_fuel(run, 2);
    assert(seq![step].drop_first() =~= Seq::<Step>::empty());
}

/// `event` is what `step` asks for: the transaction or the pause,
/// whatever its outcome.
pub open spec fn asks<E>(step: Step, event: Event<E>) -> bool {
    match step {
        Step::Write { register, value } => is_register_write(event, register, value),
        Step::Pause { ms } => event == (Event::<E>::Delay { ms }),
        Step::Check => is_register_read(event, Register::Response, 1),
    }
}

/// `event` is a read of the response register that found the fault `code`.
pub open spec fn reports<E>(event: Event<E>, code: ResponseError) -> bool {
    is_register_read(event, Register::Response, 1) && (event matches Event::WriteRead {
        reply: Ok(data),
        ..
    } && decode(data[0]) == Err::<(), ResponseError>(code))
}

/// `event` is what `step` asks for, and it went well: no bus fault,
/// and for a check no fault code in the response.
pub open spec fn passes<E>(step: Step, event: Event<E>) -> bool {
    asks(step, event) && event.fault() is None && (step is Check ==> forall|
        code: ResponseError,
    |
        !reports(event, code))
}

/// A run that succeeded did every step of its script, in the order of the
/// script, one event for each, and every one of them went well.
pub proof fn lemma_run_succeeded<E>(
    steps: Seq<Step>,
    trace: Seq<Event<E>>,
    result: Result<(), Error<E>>,
)
    requires
        run(steps, trace, result),
        result is Ok,
    ensures
        trace.len() == steps.len(),
        forall|i: int| 0 <= i < steps.len() ==> passes(#[trigger] steps[i], trace[i]),
    decreases steps.len(),
{
    reveal(run);
    if steps.len() > 0 {
        assert(outcome(steps[0], trace) is Passed);
        assert(passes(steps[0], trace[0]));
        lemma_run_succeeded(steps.drop_first(), trace.drop_first(), result);
        assert forall|i: int| 0 <= i < steps.len() implies passes(
            #[trigger] steps[i],
            trace[i],
        ) by {
            if i > 0 {
                assert(steps[i] == steps.drop_first()[i - 1]);
                assert(trace[i] == trace.drop_first()[i - 1]);
            }
        }
    }
}

/// A run that failed stopped at once. The result names the step `k` at which
/// it stopped: the steps before it went well, one event each, in the order
/// of the script; event `k` is what step `k` asks; and what follows is fixed
/// by how the step failed.
///
/// * A bus fault at step `k` ends the trace, and the fault is the error.
/// * A fault code found by a check is followed by exactly one more event,
///   the no-op command that clears the fault latch. If that write goes
///   through, the code is the error; if the bus fails it, that fault is.
///
/// No step behind `k` leaves a trace.
pub proof fn lemma_run_failed<E>(
    steps: Seq<Step>,
    trace: Seq<Event<E>>,
    error: Error<E>,
) -> (k: int)
    requires
        run(steps, trace, Err(error)),
    ensures
        0 <= k < steps.len(),
        k < trace.len() <= k + 2,
        forall|i: int| 0 <= i < k ==> passes(#[trigger] steps[i], trace[i]),
        asks(steps[k], trace[k]),
        trace.len() == k + 1 ==> trace[k].fault() == Some(error->Interface_0) && error
            is Interface,
        trace.len() == k + 2 ==> {
            &&& steps[k] is Check
            &&& is_register_write(trace[k + 1], Register::Command, COMMAND_NOP)
            &&& match trace[k + 1].fault() {
                None => error is Response && reports(trace[k], error->Response_0),
                Some(e) => error == Error::<E>::Interface(e) && exists|code: ResponseError|
                    reports(trace[k], code),
            }
        },
    decreases steps.len(),
{
    reveal(run);
    assert(steps.len() > 0);
    match outcome(steps[0], trace) {
        Outcome::Passed => {
            assert(passes(steps[0], trace[0]));
            let next = lemma_run_failed(steps.drop_first(), trace.drop_first(), error);
            let k = next + 1;
            assert forall|i: int| 0 <= i < k implies passes(#[trigger] steps[i], trace[i]) by {
                if i > 0 {
                    assert(steps[i] == steps.drop_first()[i - 1]);
                    assert(trace[i] == trace.drop_first()[i - 1]);
                }
            }
            assert(steps[k] == steps.drop_first()[next]);
            assert(trace[k] == trace.drop_first()[next]);
            if trace.len() == k + 2 {
                assert(trace[k + 1] == trace.drop_first()[next + 1]);
            }
            k
        },
        Outcome::Stopped { used, error: found } => {
            if trace.len() == 2 {
                let code = decode(trace[0]->WriteRead_reply->Ok_0[0])->Err_0;
                assert(reports(trace[0], code));
            }
            0
        },
        Outcome::Mismatch => 0,
    }
}

/// Steps that all went well, one event each and in the order of the script,
/// make a successful run: success is nothing more than that.
pub proof fn lemma_passes_make_a_run<E>(steps: Seq<Step>, trace: Seq<Event<E>>)
    requires
        trace.len() == steps.len(),
        forall|i: int| 0 <= i < steps.len() ==> passes(#[trigger] steps[i], trace[i]),
    ensures
        run(steps, trace, Ok(())),
    decreases steps.len(),
{
    reveal(run);
    if steps.len() > 0 {
        assert(passes(steps[0], trace[0]));
        if steps[0] is Check {
            let byte = trace[0]->WriteRead_reply->Ok_0[0];
            if let Err(code) = decode(byte) {
                assert(reports(trace[0], code));
            }
        }
        assert(outcome(steps[0], trace) is Passed);
        assert forall|i: int| 0 <= i < steps.drop_first().len() implies passes(
            #[trigger] steps.drop_first()[i],
            trace.drop_first()[i],
        ) by {
            assert(passes(steps[i + 1], trace[i + 1]));
        }
        lemma_passes_make_a_run(steps.drop_first(), trace.drop_first());
    }
}

/// The trace decides the result: one and the same stretch of events is a run
/// of a script with one result only.
pub proof fn lemma_run_decides<E>(
    steps: Seq<Step>,
    trace: Seq<Event<E>>,
    first: Result<(), Error<E>>,
    second: Result<(), Error<E>>,
)
    requires
        run(steps, trace, first),
        run(steps, trace, second),
    ensures
        first == second,
    decreases steps.len(),
{
    reveal(run);
    if steps.len() == 0 {
        assert(first->Ok_0 == ());
        assert(second->Ok_0 == ());
    } else if outcome(steps[0], trace) is Passed {
        lemma_run_decides(steps.drop_first(), trace.drop_first(), first, second);
    }
}

/// The shape of a parameter write. Unless the bus fails, it is always two
/// register writes and then one read of the response register, in that
/// order: the value to the parameter port, the set command to the command
/// register, the response. This holds whether the response is good or not.
/// The write succeeded if and only if nothing follows the read; after a
/// fault code, the one thing that follows is the no-op command.
///
/// With bus faults taken in, the events are still the first so many of these
/// four, in this order.
pub proof fn lemma_parameter_write_shape<E>(
    param: Param,
    value: u8,
    trace: Seq<Event<E>>,
    result: Result<(), Error<E>>,
)
    requires
        run(parameter_script(param, value), trace, result),
    ensures
        1 <= trace.len() <= 4,
        is_register_write(trace[0], Register::ParamWr, value),
        trace.len() >= 2 ==> is_register_write(
            trace[1],
            Register::Command,
            param.spec_set_command(),
        ),
        trace.len() >= 3 ==> is_register_read(trace[2], Register::Response, 1),
        trace.len() == 4 ==> is_register_write(trace[3], Register::Command, COMMAND_NOP),
        (forall|i: int| 0 <= i < trace.len() ==> (#[trigger] trace[i]).fault() is None) ==> {
            &&& trace.len() >= 3
            &&& (result is Ok <==> trace.len() == 3)
        },
{
    let script = parameter_script(param, value);
    match result {
        Ok(_) => {
            lemma_run_succeeded(script, trace, result);
            assert(passes(script[0], trace[0]));
            assert(passes(script[1], trace[1]));
            assert(passes(script[2], trace[2]));
        },
        Err(error) => {
            let k = lemma_run_failed(script, trace, error);
            if k >= 1 {
                assert(passes(script[0], trace[0]));
            }
            if k >= 2 {
                assert(passes(script[1], trace[1]));
            }
            assert(asks(script[k], trace[k]));
            if trace.len() == k + 1 {
                assert(trace[k].fault() is Some);
            }
        },
    }
}

/// A run that succeeded can be carried on: a run of more steps right behind
/// it makes a run of all the steps together, with the result of the second.
pub proof fn lemma_run_continues<E>(
    first: Seq<Step>,
    second: Seq<Step>,
    head: Seq<Event<E>>,
    tail: Seq<Event<E>>,
    result: Result<(), Error<E>>,
)
    requires
        run(first, head, Ok(())),
        run(second, tail, result),
    ensures
        run(first + second, head + tail, result),
    decreases first.len(),
{
    reveal(run);
    if first.len() == 0 {
        assert(first + second =~= second);
        assert(head + tail =~= tail);
    } else {
        assert(outcome(first[0], head) is Passed);
        assert((head + tail)[0] == head[0]);
        assert((first + second)[0] == first[0]);
        assert(outcome(first[0], head + tail) is Passed);
        lemma_run_continues(first.drop_first(), second, head.drop_first(), tail, result);
        assert((first + second).drop_first() =~= first.drop_first() + second);
        assert((head + tail).drop_first() =~= head.drop_first() + tail);
    }
}

/// A run that failed is a failed run of any longer script that starts with
/// the same steps: the steps behind the failure are never reached.
pub proof fn lemma_run_stays_stopped<E>(
    first: Seq<Step>,
    rest: Seq<Step>,
    trace: Seq<Event<E>>,
    error: Error<E>,
)
    requires
        run(first, trace, Err(error)),
    ensures
        run(first + rest, trace, Err(error)),
    decreases first.len(),
{
    reveal(run);
    assert(first.len() > 0);
    assert((first + rest)[0] == first[0]);
    assert((first + rest).drop_first() =~= first.drop_first() + rest);
    if outcome(first[0], trace) is Passed {
        lemma_run_stays_stopped(first.drop_first(), rest, trace.drop_first(), error);
    }
}

/// Progress through a script on a timeline. If the first `done` steps of
/// `script` were performed between `start` and `middle`, and the steps
/// `part`, which stand next in the script, between `middle` and `end`, then
/// on success the script is performed up to behind `part`, and on failure
/// the whole script is performed with that failure.
pub proof fn lemma_performed_next<E>(
    script: Seq<Step>,
    done: int,
    part: Seq<Step>,
    start: Seq<Event<E>>,
    middle: Seq<Event<E>>,
    end: Seq<Event<E>>,
    result: Result<(), Error<E>>,
)
    requires
        0 <= done,
        done + part.len() <= script.len(),
        script.subrange(done, done + part.len()) =~= part,
        performed(start, middle, script.take(done), Ok(())),
        performed(middle, end, part, result),
    ensures
        extends(start, end),
        result is Ok ==> performed(start, end, script.take(done + part.len()), Ok(())),
        result is Ok ==> performed(start, end, script.take(done + part.len()), result),
        result is Err ==> performed(start, end, script, result),
{
    lemma_since_adds_up(start, middle, end);
    lemma_run_continues(
        script.take(done),
        part,
        since(start, middle),
        since(middle, end),
        result,
    );
    assert(script.take(done) + part =~= script.take(done + part.len()));
    if let Ok(unit) = result {
        assert(unit == ());
    }
    if let Err(error) = result {
        lemma_run_stays_stopped(
            script.take(done + part.len()),
            script.skip(done + part.len()),
            since(start, end),
            error,
        );
        assert(script.take(done + part.len()) + script.skip(done + part.len()) =~= script);
    }
}

/// On a timeline that has not moved, the empty start of any script has been
/// performed.
pub proof fn lemma_performed_nothing<E>(script: Seq<Step>, start: Seq<Event<E>>)
    ensures
        performed(start, start, script.take(0), Ok(())),
{
    reveal(run);
    assert(since(start, start) =~= Seq::<Event<E>>::empty());
}

} // verus!
