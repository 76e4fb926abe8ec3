//! What the driver needs from its surroundings, and the record of what it
//! asked of them.
//!
//! The chip is reached through transactions on a two-wire bus, and the reset
//! sequence must let a stretch of time pass at one point. `Bus` and `Delay`
//! are these two capabilities. Neither promises anything about an outcome:
//! whether a transaction goes through, and what bytes come back, is up to the
//! bus and the device on it.
//!
//! A `Port` holds the bus for the driver and keeps a timeline: every
//! transaction and every pause that was asked for through it, with its
//! outcome, in the order of the asking. A port is the driver's only way to
//! the bus, and its three operations are the only way onto the timeline, so
//! what the driver's contracts say of the timeline is said of what went over
//! the bus.

use vstd::prelude::*;

verus! {

/// A master on a two-wire bus.
pub trait Bus {
    /// The fault a transaction can end with.
    type Error;

    /// Sends `bytes` to the device at `address`.
    fn write(&mut self, address: u8, bytes: &[u8]) -> Result<(), Self::Error>;

    /// Sends `bytes` to the device at `address`, then reads as many bytes as
    /// `buffer` holds from it, without releasing the bus in between.
    fn write_read(&mut self, address: u8, bytes: &[u8], buffer: &mut [u8]) -> Result<
        (),
        Self::Error,
    >;
}

/// A way to let time pass.
pub trait Delay {
    /// Returns after at least `ms` milliseconds.
    fn delay_ms(&mut self, ms: u32);
}

/// One entry of a timeline: something that was asked for, together with how
/// it ended.
pub enum Event<E> {
    /// `bytes` were sent to the device at `address`.
    Write { address: u8, bytes: Seq<u8>, result: Result<(), E> },
    /// `bytes` were sent to the device at `address` and, in the same
    /// transaction, `reply` was read back from it.
    WriteRead { address: u8, bytes: Seq<u8>, reply: Result<Seq<u8>, E> },
    /// A pause of `ms` milliseconds was asked for.
    Delay { ms: u32 },
}

impl<E> Event<E> {
    /// The bus fault the event ended with, if it ended with one.
    pub open spec fn fault(self) -> Option<E> {
        match self {
            Event::Write { result: Err(e), .. } => Some(e),
            Event::WriteRead { reply: Err(e), .. } => Some(e),
            _ => None,
        }
    }
}

/// What a read transaction gave: the bytes in the buffer if the bus reports
/// success, else the fault.
pub open spec fn reply<E>(result: Result<(), E>, data: Seq<u8>) -> Result<Seq<u8>, E> {
    match result {
        Ok(_) => Ok(data),
        Err(e) => Err(e),
    }
}

/// A bus together with the timeline of what was asked through it.
pub struct Port<T: Bus> {
    device: T,
    timeline: Ghost<Seq<Event<T::Error>>>,
}

impl<T: Bus> Port<T> {
    /// Everything that was asked for through this port, oldest first.
    pub closed spec fn history(&self) -> Seq<Event<T::Error>> {
        self.timeline@
    }

    /// Takes a bus; nothing has been asked of it through the port yet.
    pub fn new(device: T) -> (port: Self)
        ensures
            port.history() == Seq::<Event<T::Error>>::empty(),
    {
        Port { device, timeline: Ghost(Seq::empty()) }
    }

    /// Sends `bytes` to the device at `address` and notes the transaction
    /// with its outcome.
    pub fn write(&mut self, address: u8, bytes: &[u8]) -> (result: Result<(), T::Error>)
        ensures
            final(self).history() == old(self).history().push(
                Event::Write { address, bytes: bytes@, result },
            ),
    {
        let result = self.device.write(address, bytes);
        self.timeline = Ghost(
            self.timeline@.push(Event::Write { address, bytes: bytes@, result }),
        );
        result
    }

    /// Sends `bytes` to the device at `address`, reads into `buffer`, and
    /// notes the transaction with its outcome: the bytes that came back, or
    /// the fault.
    pub fn write_read(&mut self, address: u8, bytes: &[u8], buffer: &mut [u8]) -> (result: Result<
        (),
        T::Error,
    >)
        ensures
            final(self).history() == old(self).history().push(
                Event::WriteRead { address, bytes: bytes@, reply: reply(result, final(buffer)@) },
            ),
    {
        let result = self.device.write_read(address, bytes, buffer);
        self.timeline = Ghost(
            self.timeline@.push(
                Event::WriteRead { address, bytes: bytes@, reply: reply(result, buffer@) },
            ),
        );
        result
    }

    /// Lets `delay` pass `ms` milliseconds and notes the pause.
    pub fn pause<D: Delay>(&mut self, delay: &mut D, ms: u32)
        ensures
            final(self).history() == old(self).history().push(Event::Delay { ms }),
    {
        delay.delay_ms(ms);
        self.timeline = Ghost(self.timeline@.push(Event::Delay { ms }));
    }
}

/// The events that `after` holds beyond `before`.
pub open spec fn since<E>(before: Seq<Event<E>>, after: Seq<Event<E>>) -> Seq<Event<E>> {
    after.skip(before.len() as int)
}

/// `after` is `before` with further events behind it: nothing that had
/// happened was lost or rewritten.
pub open spec fn extends<E>(before: Seq<Event<E>>, after: Seq<Event<E>>) -> bool {
    before.len() <= after.len() && after.take(before.len() as int) =~= before
}

/// A timeline that grew by one event extends the old one by just that event.
pub proof fn lemma_one_event<E>(before: Seq<Event<E>>, after: Seq<Event<E>>, event: Event<E>)
    requires
        after == before.push(event),
    ensures
        extends(before, after),
        since(before, after) =~= seq![event],
{
}

/// Growth of a timeline adds up: what came since `start` is what came up to
/// `middle` followed by what came after it.
pub proof fn lemma_since_adds_up<E>(
    start: Seq<Event<E>>,
    middle: Seq<Event<E>>,
    end: Seq<Event<E>>,
)
    requires
        extends(start, middle),
        extends(middle, end),
    ensures
        extends(start, end),
        since(start, end) =~= since(start, middle) + since(middle, end),
{
    assert forall|i: int| 0 <= i < start.len() implies end[i] == start[i] by {
        assert(end.take(middle.len() as int)[i] == middle[i]);
        assert(middle.take(start.len() as int)[i] == start[i]);
    }
    assert forall|i: int| 0 <= i < middle.len() - start.len() implies since(start, end)[i]
        == since(start, middle)[i] by {
        assert(end.take(middle.len() as int)[i + start.len()] == middle[i + start.len()]);
    }
}

} // verus!
