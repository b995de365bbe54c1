//! The capability interface that a radio driver implements. Each operation
//! is non-blocking: a start call, then checks that report completion.
//! `Logged` makes the calls on a driver and keeps, as a ghost log, each call
//! with its result.
use vstd::prelude::*;

verus! {

/// Packet transmission.
pub trait Transmit<E> {
    /// Begins sending `data`.
    fn start_transmit(&mut self, data: &[u8]) -> Result<(), E>;

    /// Reports whether the transmission started last has completed.
    fn check_transmit(&mut self) -> Result<bool, E>;
}

/// What the radio reports alongside a received frame.
pub trait ReceiveInfo {
    /// The signal strength of the frame, in dBm.
    fn rssi(&self) -> i16;
}

/// Packet reception.
pub trait Receive<I, E> {
    /// Enters listen mode.
    fn start_receive(&mut self) -> Result<(), E>;

    /// Reports whether a frame is waiting; with `restart`, a receive that
    /// ended without a frame is started again.
    fn check_receive(&mut self, restart: bool) -> Result<bool, E>;

    /// Copies the waiting frame into the front of `buff`, returning its length
    /// and its reception info.
    fn get_received(&mut self, buff: &mut [u8]) -> Result<(usize, I), E>;
}

/// Output power control.
pub trait Power<E> {
    /// Sets the output power in dBm.
    fn set_power(&mut self, power: i8) -> Result<(), E>;
}

/// Signal strength on the current channel.
pub trait Rssi<E> {
    /// Reads the current signal strength in dBm.
    fn poll_rssi(&mut self) -> Result<i16, E>;
}

/// Cooperative waiting on the calling thread.
pub trait Delay {
    /// Waits for `us` microseconds.
    fn delay_us(&mut self, us: u32);
}

/// One call on the radio, with what it returned.
pub enum RadioCall<E> {
    SetPower { power: i8, result: Result<(), E> },
    StartTransmit { data: Seq<u8>, result: Result<(), E> },
    CheckTransmit { result: Result<bool, E> },
    StartReceive { result: Result<(), E> },
    CheckReceive { restart: bool, result: Result<bool, E> },
    /// `frame` is the whole buffer after the call.
    GetReceived { result: Result<usize, E>, frame: Seq<u8> },
    PollRssi { result: Result<i16, E> },
    Delay { us: u32 },
}

/// The length part of a fetch's result.
pub open spec fn fetched_length<I, E>(r: Result<(usize, I), E>) -> Result<usize, E> {
    match r {
        Ok((n, _)) => Ok(n),
        Err(e) => Err(e),
    }
}

/// A radio driver, with the log of the calls made on it through this handle.
pub struct Logged<R, E> {
    pub radio: R,
    log: Ghost<Seq<RadioCall<E>>>,
}

impl<R, E> Logged<R, E> {
    /// The calls made so far, in order.
    pub closed spec fn calls(&self) -> Seq<RadioCall<E>> {
        self.log@
    }

    /// Takes `radio`, with no call made yet.
    pub fn new(radio: R) -> (r: Logged<R, E>)
        ensures
            r.calls() == Seq::<RadioCall<E>>::empty(),
    {
        Logged { radio, log: Ghost(Seq::empty()) }
    }

    /// Gives the driver back.
    pub fn into_inner(self) -> R {
        self.radio
    }
}

impl<R: Transmit<E>, E> Logged<R, E> {
    pub fn start_transmit(&mut self, data: &[u8]) -> (r: Result<(), E>)
        ensures
            final(self).calls() == old(self).calls().push(RadioCall::StartTransmit { data: data@, result: r }),
    {
        let r = self.radio.start_transmit(data);
        self.log = Ghost(self.log@.push(RadioCall::StartTransmit { data: data@, result: r }));
        r
    }

    pub fn check_transmit(&mut self) -> (r: Result<bool, E>)
        ensures
            final(self).calls() == old(self).calls().push(RadioCall::CheckTransmit { result: r }),
    {
        let r = self.radio.check_transmit();
        self.log = Ghost(self.log@.push(RadioCall::CheckTransmit { result: r }));
        r
    }
}

impl<R: Power<E>, E> Logged<R, E> {
    pub fn set_power(&mut self, power: i8) -> (r: Result<(), E>)
        ensures
            final(self).calls() == old(self).calls().push(RadioCall::SetPower { power, result: r }),
    {
        let r = self.radio.set_power(power);
        self.log = Ghost(self.log@.push(RadioCall::SetPower { power, result: r }));
        r
    }
}

impl<R: Rssi<E>, E> Logged<R, E> {
    pub fn poll_rssi(&mut self) -> (r: Result<i16, E>)
        ensures
            final(self).calls() == old(self).calls().push(RadioCall::PollRssi { result: r }),
    {
        let r = self.radio.poll_rssi();
        self.log = Ghost(self.log@.push(RadioCall::PollRssi { result: r }));
        r
    }
}

impl<R: Delay, E> Logged<R, E> {
    pub fn delay_us(&mut self, us: u32)
        ensures
            final(self).calls() == old(self).calls().push(RadioCall::Delay { us }),
    {
        self.radio.delay_us(us);
        self.log = Ghost(self.log@.push(RadioCall::Delay { us }));
    }
}

impl<R, E> Logged<R, E> {
    pub fn start_receive<I>(&mut self) -> (r: Result<(), E>)
        where
            R: Receive<I, E>,
        ensures
            final(self).calls() == old(self).calls().push(RadioCall::StartReceive { result: r }),
    {
        let r = self.radio.start_receive();
        self.log = Ghost(self.log@.push(RadioCall::StartReceive { result: r }));
        r
    }

    pub fn check_receive<I>(&mut self, restart: bool) -> (r: Result<bool, E>)
        where
            R: Receive<I, E>,
        ensures
            final(self).calls() == old(self).calls().push(RadioCall::CheckReceive { restart, result: r }),
    {
        let r = <R as Receive<I, E>>::check_receive(&mut self.radio, restart);
        self.log = Ghost(self.log@.push(RadioCall::CheckReceive { restart, result: r }));
        r
    }

    pub fn get_received<I>(&mut self, buff: &mut [u8]) -> (r: Result<(usize, I), E>)
        where
            R: Receive<I, E>,
        ensures
            final(self).calls() == old(self).calls().push(RadioCall::GetReceived {
                result: fetched_length(r),
                frame: final(buff)@,
            }),
    {
        let r = self.radio.get_received(buff);
        self.log = Ghost(self.log@.push(RadioCall::GetReceived { result: fetched_length(r), frame: buff@ }));
        r
    }
}

} // verus!
