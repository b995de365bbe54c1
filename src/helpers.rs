//! The radio commands: transmit, receive, signal-strength polling and echo.
//! Each function here performs one bounded step of its command; a caller
//! that runs a command continuously repeats the step.
use vstd::prelude::*;
use crate::blocking::{blocking_transmit, lift, transmit_calls, BlockingError, BlockingOptions};
use crate::codec::{i16_be, write_i16};
use crate::radio::{Delay, Logged, Power, RadioCall, Receive, Rssi, Transmit};

verus! {

/// Configuration of the transmit command.
#[derive(Clone, Debug, PartialEq, Eq)]
pub struct TransmitOptions {
    /// The payload.
    pub data: Vec<u8>,
    /// Output power in dBm (-18 to 13).
    pub power: Option<i8>,
    /// Period of repeated transmission in microseconds; `None` sends once.
    pub period_us: Option<u32>,
    pub blocking_options: BlockingOptions,
}

/// Configuration of the receive command.
#[derive(Clone, Debug, PartialEq, Eq)]
pub struct ReceiveOptions {
    /// Keep receiving after the first frame.
    pub continuous: bool,
    pub pcap_options: PcapOptions,
    pub blocking_options: BlockingOptions,
}

/// Where received frames are captured: a file, a named pipe, or nowhere.
#[derive(Clone, Debug, PartialEq, Eq)]
pub struct PcapOptions {
    pub pcap_file: Option<String>,
    pub pcap_pipe: Option<String>,
}

/// The capture destination that `PcapOptions` selects.
#[derive(Clone, Debug, PartialEq, Eq)]
pub enum CaptureTarget {
    NoCapture,
    File(String),
    Pipe(String),
    /// A file and a pipe were both asked for; they exclude each other.
    Conflict,
}

/// Configuration of the signal-strength polling command.
#[derive(Clone, Copy, Debug, PartialEq, Eq)]
pub struct RssiOptions {
    /// Wait between two readings, in microseconds.
    pub period_us: u32,
    /// Keep polling after the first reading.
    pub continuous: bool,
}

/// Configuration of the echo command.
#[derive(Clone, Copy, Debug, PartialEq, Eq)]
pub struct EchoOptions {
    /// Keep echoing after the first frame.
    pub continuous: bool,
    /// Output power in dBm, set once before listening.
    pub power: Option<i8>,
    /// Turnaround wait before the reply, in microseconds.
    pub delay_us: u32,
    /// Append the received signal strength to the reply.
    pub append_info: bool,
    pub blocking_options: BlockingOptions,
}

impl PcapOptions {
    /// Picks the capture destination.
    pub fn target(&self) -> (r: CaptureTarget)
        ensures
            match (self.pcap_file, self.pcap_pipe) {
                (None, None) => r == CaptureTarget::NoCapture,
                (Some(f), None) => r matches CaptureTarget::File(g) && g@ == f@,
                (None, Some(p)) => r matches CaptureTarget::Pipe(q) && q@ == p@,
                (Some(_), Some(_)) => r == CaptureTarget::Conflict,
            },
    {
        match (&self.pcap_file, &self.pcap_pipe) {
            (None, None) => CaptureTarget::NoCapture,
            (Some(f), None) => CaptureTarget::File(f.clone()),
            (None, Some(p)) => CaptureTarget::Pipe(p.clone()),
            (Some(_), Some(_)) => CaptureTarget::Conflict,
        }
    }
}

/// Sets the output power when one is given, with one call; the device's
/// answer comes back as the result.
pub fn apply_power<T: Power<E>, E>(radio: &mut Logged<T, E>, power: Option<i8>) -> (r: Result<(), BlockingError<E>>)
    ensures
        match power {
            None => r is Ok && final(radio).calls() == old(radio).calls(),
            Some(p) => final(radio).calls().len() == old(radio).calls().len() + 1
                && final(radio).calls().drop_last() == old(radio).calls()
                && (final(radio).calls().last() matches RadioCall::SetPower { power: q, result: res }
                    && q == p && r == lift(res)),
        },
{
    match power {
        None => Ok(()),
        Some(p) => match radio.set_power(p) {
            Ok(()) => Ok(()),
            Err(e) => Err(BlockingError::Inner(e)),
        },
    }
}

/// One transmission of the transmit command: sends the payload with a
/// blocking transmit, then gives the wait before the next one, `None` when
/// the command is done.
pub fn transmit_round<T: Transmit<E> + Delay, E>(radio: &mut Logged<T, E>, options: &TransmitOptions) -> (r: Result<Option<u32>, BlockingError<E>>)
    requires
        options.blocking_options.wf(),
    ensures
        r matches Ok(next) ==> next == options.period_us,
        transmit_calls(options.blocking_options, options.data@, old(radio).calls(), final(radio).calls(),
            match r { Ok(_) => Ok(()), Err(e) => Err(e) }),
{
    match blocking_transmit(radio, options.data.as_slice(), &options.blocking_options) {
        Ok(()) => Ok(options.period_us),
        Err(e) => Err(e),
    }
}

/// One readiness check of a listening radio (restarting reception): `Some`
/// with the length and info of a frame then fetched into `buff`, or `None`
/// when no frame is waiting. A length reported beyond `buff` is cut to it.
/// A device error comes back unchanged, and no call follows it.
pub fn receive_poll<T: Receive<I, E>, I, E>(radio: &mut Logged<T, E>, buff: &mut [u8]) -> (r: Result<Option<(usize, I)>, E>)
    ensures
        match r {
            Ok(None) => final(radio).calls() == old(radio).calls().push(
                RadioCall::CheckReceive { restart: true, result: Ok(false) }),
            Ok(Some((n, _))) => final(radio).calls().len() == old(radio).calls().len() + 2
                && final(radio).calls().drop_last() == old(radio).calls().push(
                    RadioCall::CheckReceive { restart: true, result: Ok(true) })
                && (final(radio).calls().last() matches RadioCall::GetReceived { result: Ok(m), frame: f }
                    && f == final(buff)@
                    && n as int == if m > f.len() { f.len() as int } else { m as int }),
            Err(e) => final(radio).calls() == old(radio).calls().push(
                RadioCall::CheckReceive { restart: true, result: Err(e) })
                || final(radio).calls() == old(radio).calls().push(
                    RadioCall::CheckReceive { restart: true, result: Ok(true) }).push(
                    RadioCall::GetReceived { result: Err(e), frame: final(buff)@ }),
        },
{
    match radio.check_receive(true) {
        Err(e) => Err(e),
        Ok(false) => Ok(None),
        Ok(true) => match radio.get_received(buff) {
            Err(e) => Err(e),
            Ok((n, info)) => {
                let len = if n > buff.len() { buff.len() } else { n };
                Ok(Some((len, info)))
            },
        },
    }
}

/// One iteration of the signal-strength command: reads the signal strength,
/// checks for a waiting frame (restarting reception) without fetching it, so
/// reception does not stall, then waits the period. Returns the reading; a
/// device error comes back unchanged and no call follows it.
pub fn rssi_round<T: Receive<I, E> + Rssi<E> + Delay, I, E>(radio: &mut Logged<T, E>, options: &RssiOptions) -> (r: Result<i16, E>)
    ensures
        match r {
            Ok(v) => {
                let c = final(radio).calls();
                let k = old(radio).calls().len() as int;
                &&& c.len() == k + 3
                &&& c.subrange(0, k) == old(radio).calls()
                &&& c[k] == RadioCall::PollRssi { result: Ok::<i16, E>(v) }
                &&& c[k + 1] matches RadioCall::CheckReceive { restart: true, result: Ok(_) }
                &&& c[k + 2] == RadioCall::<E>::Delay { us: options.period_us }
            },
            Err(e) => {
                let c = final(radio).calls();
                let k = old(radio).calls().len() as int;
                ||| c == old(radio).calls().push(RadioCall::PollRssi { result: Err(e) })
                ||| c.len() == k + 2 && c.subrange(0, k) == old(radio).calls()
                    && c[k + 1] == RadioCall::CheckReceive { restart: true, result: Err::<bool, E>(e) }
                    && (c[k] matches RadioCall::PollRssi { result: Ok(_) })
            },
        },
{
    let rssi = match radio.poll_rssi() {
        Ok(v) => v,
        Err(e) => return Err(e),
    };
    match radio.check_receive(true) {
        Ok(_) => {},
        Err(e) => return Err(e),
    }
    radio.delay_us(options.period_us);
    Ok(rssi)
}

/// Whether `r` is the echo of `payload`, received at signal strength `rssi`.
pub open spec fn is_echo(r: Seq<u8>, payload: Seq<u8>, rssi: i16, append_info: bool) -> bool {
    if append_info {
        &&& r.len() == payload.len() + 2
        &&& r.subrange(0, payload.len() as int) == payload
        &&& i16_be(r.subrange(payload.len() as int, payload.len() as int + 2)) == rssi
    } else {
        r == payload
    }
}

/// The reply to a frame held in the first `n` bytes of `buff`: the frame
/// itself, followed with `append_info` by the signal strength in two bytes.
/// Appending needs two spare bytes in `buff` past the frame; without them
/// the reply is refused.
pub fn echo_reply<E>(buff: &[u8], n: usize, rssi: i16, append_info: bool) -> (r: Result<Vec<u8>, BlockingError<E>>)
    requires
        n <= buff@.len(),
    ensures
        (append_info && n + 2 > buff@.len()) <==> r is Err,
        r is Err ==> r matches Err(BlockingError::Encoding),
        r matches Ok(v) ==> is_echo(v@, buff@.subrange(0, n as int), rssi, append_info),
{
    if append_info && buff.len() - n < 2 {
        return Err(BlockingError::Encoding);
    }
    let mut reply: Vec<u8> = Vec::with_capacity(n);
    let mut i: usize = 0;
    while i < n
        invariant
            n <= buff@.len(),
            i <= n,
            reply@ == buff@.subrange(0, i as int),
        decreases n - i,
    {
        reply.push(buff[i]);
        assert(reply@ =~= buff@.subrange(0, i + 1));
        i = i + 1;
    }
    if append_info {
        let tail = write_i16(rssi);
        reply.push(tail[0]);
        reply.push(tail[1]);
        assert(reply@.subrange(n as int, n + 2) =~= tail@);
        assert(reply@.subrange(0, n as int) =~= buff@.subrange(0, n as int));
    }
    Ok(reply)
}

/// Answers one delivered frame of the echo command: builds the reply, waits
/// the turnaround delay, and sends it with a blocking transmit. Returns the
/// length of the reply. Without room for the appended strength no call is made.
pub fn echo_frame<T: Transmit<E> + Delay, E>(radio: &mut Logged<T, E>, buff: &[u8], n: usize, rssi: i16, options: &EchoOptions) -> (r: Result<usize, BlockingError<E>>)
    requires
        n <= buff@.len(),
        options.blocking_options.wf(),
    ensures
        (options.append_info && n + 2 > buff@.len()) <==> r matches Err(BlockingError::Encoding),
        r matches Err(BlockingError::Encoding) ==> final(radio).calls() == old(radio).calls(),
        r matches Ok(len) ==> len == n + if options.append_info { 2int } else { 0int },
        !(r matches Err(BlockingError::Encoding)) ==> exists|reply: Seq<u8>|
            #[trigger] is_echo(reply, buff@.subrange(0, n as int), rssi, options.append_info)
            && transmit_calls(options.blocking_options, reply,
                old(radio).calls().push(RadioCall::Delay { us: options.delay_us }), final(radio).calls(),
                match r { Ok(_) => Ok(()), Err(e) => Err(e) }),
{
    let reply = match echo_reply(buff, n, rssi, options.append_info) {
        Ok(v) => v,
        Err(e) => return Err(e),
    };
    radio.delay_us(options.delay_us);
    let r = blocking_transmit(radio, reply.as_slice(), &options.blocking_options);
    assert(is_echo(reply@, buff@.subrange(0, n as int), rssi, options.append_info));
    match r {
        Ok(()) => Ok(reply.len()),
        Err(e) => Err(e),
    }
}

/// What the echo command does after a readiness check that found `frame`:
/// wait and check again, or echo the frame and then return (`Finish`) or
/// listen again (`Continue`). Nothing is captured.
pub fn echo_step(options: &EchoOptions, frame: Option<usize>) -> (r: ReceiveStep)
    ensures
        r == receive_step_spec(options.continuous, false, options.blocking_options.poll_interval_us, frame),
{
    match frame {
        None => ReceiveStep::Wait(options.blocking_options.poll_interval_us),
        Some(n) => if options.continuous {
            ReceiveStep::Continue { capture: false, wait: options.blocking_options.poll_interval_us }
        } else {
            ReceiveStep::Finish { capture: false, len: n }
        },
    }
}

/// What the receive command does after one readiness check.
#[derive(Clone, Copy, Debug, PartialEq, Eq)]
pub enum ReceiveStep {
    /// No frame: wait this many microseconds and check again.
    Wait(u32),
    /// A frame of `len` bytes arrived: capture it when `capture`, then return `len`.
    Finish { capture: bool, len: usize },
    /// A frame arrived: capture it when `capture`, listen again, and wait this
    /// many microseconds before the next check.
    Continue { capture: bool, wait: u32 },
}

/// The step the receive command takes after a check that found `frame`.
pub open spec fn receive_step_spec(continuous: bool, capturing: bool, poll_interval_us: u32, frame: Option<usize>) -> ReceiveStep {
    match frame {
        None => ReceiveStep::Wait(poll_interval_us),
        Some(n) => if continuous {
            ReceiveStep::Continue { capture: capturing, wait: poll_interval_us }
        } else {
            ReceiveStep::Finish { capture: capturing, len: n }
        },
    }
}

/// Decides what the receive command does after a readiness check that found
/// `frame` (the length of a delivered frame), with a capture destination
/// open when `capturing`.
pub fn receive_step(options: &ReceiveOptions, capturing: bool, frame: Option<usize>) -> (r: ReceiveStep)
    ensures
        r == receive_step_spec(options.continuous, capturing, options.blocking_options.poll_interval_us, frame),
{
    match frame {
        None => ReceiveStep::Wait(options.blocking_options.poll_interval_us),
        Some(n) => if options.continuous {
            ReceiveStep::Continue { capture: capturing, wait: options.blocking_options.poll_interval_us }
        } else {
            ReceiveStep::Finish { capture: capturing, len: n }
        },
    }
}

/// What a receive command has done: readiness checks issued, frames
/// delivered and captured, and whether it has returned. This and
/// `receive_session` model a caller that repeats `receive_step` until it
/// says to finish; they describe that loop, not any function here.
pub struct ReceiveSession {
    pub checks: nat,
    pub delivered: nat,
    pub captured: nat,
    pub finished: bool,
}

/// The receive command's course when its checks find `answers`, in order;
/// once it has returned, later answers are never asked for.
pub open spec fn receive_session(continuous: bool, capturing: bool, answers: Seq<Option<usize>>) -> ReceiveSession
    decreases answers.len(),
{
    if answers.len() == 0 {
        ReceiveSession { checks: 0, delivered: 0, captured: 0, finished: false }
    } else {
        let prev = receive_session(continuous, capturing, answers.drop_last());
        if prev.finished {
            prev
        } else {
            match receive_step_spec(continuous, capturing, 0, answers.last()) {
                ReceiveStep::Wait(_) => ReceiveSession { checks: prev.checks + 1, ..prev },
                ReceiveStep::Finish { capture, len } => ReceiveSession {
                    checks: prev.checks + 1,
                    delivered: prev.delivered + 1,
                    captured: prev.captured + if capture { 1nat } else { 0nat },
                    finished: true,
                },
                ReceiveStep::Continue { capture, wait } => ReceiveSession {
                    checks: prev.checks + 1,
                    delivered: prev.delivered + 1,
                    captured: prev.captured + if capture { 1nat } else { 0nat },
                    finished: false,
                },
            }
        }
    }
}

/// Without continuous mode, the receive command returns at the first check
/// that finds a frame: exactly one frame is delivered and no check follows.
pub proof fn law_single_receive_stops(capturing: bool, answers: Seq<Option<usize>>, k: int)
    requires
        0 <= k < answers.len(),
        answers[k] is Some,
        forall|j: int| 0 <= j < k ==> #[trigger] answers[j] is None,
    ensures
        receive_session(false, capturing, answers).finished,
        receive_session(false, capturing, answers).delivered == 1,
        receive_session(false, capturing, answers).checks == k + 1,
    decreases answers.len(),
{
    let prev = answers.drop_last();
    if k < answers.len() - 1 {
        assert(prev[k] == answers[k]);
        assert forall|j: int| 0 <= j < k implies #[trigger] prev[j] is None by {
            assert(prev[j] == answers[j]);
        }
        law_single_receive_stops(capturing, prev, k);
    } else {
        lemma_session_before_frame(capturing, prev);
    }
}

/// While no frame was delivered, the command has only checked.
proof fn lemma_session_before_frame(capturing: bool, answers: Seq<Option<usize>>)
    requires
        forall|j: int| 0 <= j < answers.len() ==> #[trigger] answers[j] is None,
    ensures
        !receive_session(false, capturing, answers).finished,
        receive_session(false, capturing, answers).delivered == 0,
        receive_session(false, capturing, answers).checks == answers.len(),
    decreases answers.len(),
{
    if answers.len() > 0 {
        let prev = answers.drop_last();
        assert forall|j: int| 0 <= j < prev.len() implies #[trigger] prev[j] is None by {
            assert(prev[j] == answers[j]);
        }
        assert(answers[answers.len() - 1] is None);
        lemma_session_before_frame(capturing, prev);
    }
}

/// With a capture destination, every delivered frame is captured, and
/// without one none is.
pub proof fn law_capture_every_frame(continuous: bool, capturing: bool, answers: Seq<Option<usize>>)
    ensures
        receive_session(continuous, capturing, answers).captured
            == if capturing { receive_session(continuous, capturing, answers).delivered } else { 0 },
    decreases answers.len(),
{
    if answers.len() > 0 {
        law_capture_every_frame(continuous, capturing, answers.drop_last());
    }
}

} // verus!
