//! Turns the poll-based operations of the capability interface into blocking
//! calls bounded by a poll interval and a timeout.
use vstd::prelude::*;
use crate::radio::{fetched_length, Delay, Logged, RadioCall, Receive, Transmit};

verus! {

/// How a blocking call polls: the wait between two checks and the budget
/// after which it gives up, both in microseconds.
#[derive(Clone, Copy, Debug, PartialEq, Eq)]
pub struct BlockingOptions {
    pub poll_interval_us: u32,
    pub timeout_us: u32,
}

impl BlockingOptions {
    /// A poll interval of zero would never use up the budget.
    pub open spec fn wf(&self) -> bool {
        self.poll_interval_us > 0
    }
}

/// Why a blocking call or a command failed.
#[derive(Clone, Debug, PartialEq, Eq)]
pub enum BlockingError<E> {
    /// The device reported a fault.
    Inner(E),
    /// The operation did not complete within the timeout.
    Timeout,
    /// The buffer is too short to hold or decode a field.
    Encoding,
}

/// A completion check: of a transmission, or (restarting) of a reception.
pub open spec fn check_call<E>(receive: bool, result: Result<bool, E>) -> RadioCall<E> {
    if receive {
        RadioCall::CheckReceive { restart: true, result }
    } else {
        RadioCall::CheckTransmit { result }
    }
}

/// `m` checks that found the operation pending, each followed by a wait of
/// `p` microseconds.
pub open spec fn pending_calls<E>(receive: bool, m: nat, p: u32) -> Seq<RadioCall<E>>
    decreases m,
{
    if m == 0 {
        Seq::empty()
    } else {
        pending_calls(receive, (m - 1) as nat, p).push(check_call(receive, Ok(false))).push(RadioCall::Delay { us: p })
    }
}

/// The checks of a blocking call: `m` pending checks with their waits, then
/// the check that ended it, which answered `last`.
pub open spec fn polled_calls<E>(receive: bool, m: nat, p: u32, last: Result<bool, E>) -> Seq<RadioCall<E>> {
    pending_calls(receive, m, p).push(check_call(receive, last))
}

/// A blocking call whose `m` pending checks, each followed by a wait, used
/// up the budget: the waits add up to more than the timeout, and every
/// check was issued within it.
pub open spec fn timed_out(opts: BlockingOptions, m: nat) -> bool {
    &&& m >= 1
    &&& (m - 1) * opts.poll_interval_us <= opts.timeout_us
    &&& m * opts.poll_interval_us > opts.timeout_us
}

/// Whether `after` is `before` followed by the calls of a blocking transmit
/// of `data` that ended with `r`: the start, then pending checks each
/// followed by a wait of the poll interval, all issued within the timeout,
/// then either the check that ended it or, once the waits exceed the
/// timeout, nothing more.
pub open spec fn transmit_calls<E>(
    opts: BlockingOptions,
    data: Seq<u8>,
    before: Seq<RadioCall<E>>,
    after: Seq<RadioCall<E>>,
    r: Result<(), BlockingError<E>>,
) -> bool {
    let started = before.push(RadioCall::StartTransmit { data, result: Ok(()) });
    let p = opts.poll_interval_us;
    match r {
        Ok(_) => exists|m: nat| m * p <= opts.timeout_us && after == started + #[trigger] polled_calls(false, m, p, Ok(true)),
        Err(BlockingError::Timeout) => exists|m: nat| timed_out(opts, m) && after == started + #[trigger] pending_calls(false, m, p),
        Err(BlockingError::Inner(e)) => after == before.push(RadioCall::StartTransmit { data, result: Err(e) })
            || exists|m: nat| m * p <= opts.timeout_us && after == started + #[trigger] polled_calls(false, m, p, Err(e)),
        Err(BlockingError::Encoding) => false,
    }
}

/// Whether `after` is `before` followed by the calls of a blocking receive
/// that ended with `r` (the length on success) and left `buf` in the buffer:
/// as for a transmit, with one fetch after the check that found a frame.
pub open spec fn receive_calls<E>(
    opts: BlockingOptions,
    before: Seq<RadioCall<E>>,
    after: Seq<RadioCall<E>>,
    buf: Seq<u8>,
    r: Result<usize, BlockingError<E>>,
) -> bool {
    let started = before.push(RadioCall::StartReceive { result: Ok(()) });
    let p = opts.poll_interval_us;
    match r {
        Ok(n) => exists|m: nat| m * p <= opts.timeout_us && after.len() > 0
            && after.drop_last() == started + #[trigger] polled_calls(true, m, p, Ok(true))
            && (after.last() matches RadioCall::GetReceived { result: Ok(k), frame: f }
                && f == buf && n as int == if k > f.len() { f.len() as int } else { k as int }),
        Err(BlockingError::Timeout) => exists|m: nat| timed_out(opts, m) && after == started + #[trigger] pending_calls(true, m, p),
        Err(BlockingError::Inner(e)) => {
            ||| after == before.push(RadioCall::StartReceive { result: Err(e) })
            ||| exists|m: nat| m * p <= opts.timeout_us && after == started + #[trigger] polled_calls(true, m, p, Err(e))
            ||| exists|m: nat| m * p <= opts.timeout_us && after.len() > 0
                && after.drop_last() == started + #[trigger] polled_calls(true, m, p, Ok(true))
                && after.last() == (RadioCall::GetReceived { result: Err(e), frame: buf })
        },
        Err(BlockingError::Encoding) => false,
    }
}

/// The device's result, as the library reports it.
pub open spec fn lift<T, E>(res: Result<T, E>) -> Result<T, BlockingError<E>> {
    match res {
        Ok(v) => Ok(v),
        Err(e) => Err(BlockingError::Inner(e)),
    }
}

/// Accounts one more poll interval after a pending check at accounted time
/// `elapsed_us`; `None` means the timeout has passed and no further check is due.
pub fn after_pending(opts: &BlockingOptions, elapsed_us: u64) -> (r: Option<u64>)
    requires
        elapsed_us <= opts.timeout_us,
    ensures
        elapsed_us + opts.poll_interval_us > opts.timeout_us ==> r is None,
        elapsed_us + opts.poll_interval_us <= opts.timeout_us ==> r == Some((elapsed_us + opts.poll_interval_us) as u64),
{
    let next: u64 = elapsed_us + opts.poll_interval_us as u64;
    if next > opts.timeout_us as u64 {
        None
    } else {
        Some(next)
    }
}

proof fn lemma_pending_step<E>(receive: bool, m: nat, p: u32, before: Seq<RadioCall<E>>, start: RadioCall<E>)
    ensures
        before.push(start) + pending_calls::<E>(receive, m + 1, p)
            == (before.push(start) + pending_calls::<E>(receive, m, p)).push(check_call(receive, Ok(false))).push(RadioCall::Delay { us: p }),
{
    assert(before.push(start) + pending_calls::<E>(receive, m + 1, p)
        =~= (before.push(start) + pending_calls::<E>(receive, m, p)).push(check_call(receive, Ok(false))).push(RadioCall::Delay { us: p }));
}

proof fn lemma_polled<E>(receive: bool, m: nat, p: u32, last: Result<bool, E>, before: Seq<RadioCall<E>>, start: RadioCall<E>)
    ensures
        before.push(start) + polled_calls(receive, m, p, last)
            == (before.push(start) + pending_calls::<E>(receive, m, p)).push(check_call(receive, last)),
{
    assert(before.push(start) + polled_calls(receive, m, p, last)
        =~= (before.push(start) + pending_calls::<E>(receive, m, p)).push(check_call(receive, last)));
}


/// Blocking transmit: starts sending `data`, then checks for completion,
/// waiting one poll interval after each pending check, until it completes,
/// the device fails, or the waits exceed the timeout. The calls made are
/// exactly these, and a device error comes back unchanged.
pub fn blocking_transmit<T: Transmit<E> + Delay, E>(radio: &mut Logged<T, E>, data: &[u8], opts: &BlockingOptions) -> (r: Result<(), BlockingError<E>>)
    requires
        opts.wf(),
    ensures
        transmit_calls(*opts, data@, old(radio).calls(), final(radio).calls(), r),
        old(radio).calls().is_prefix_of(final(radio).calls()),
{
    let ghost before = radio.calls();
    let started = radio.start_transmit(data);
    let ghost start = RadioCall::<E>::StartTransmit { data: data@, result: started };
    match started {
        Err(e) => return Err(BlockingError::Inner(e)),
        Ok(u) => {
            assert(u == ());
        },
    }
    assert(radio.calls() == before.push(start));
    assert(before.is_prefix_of(radio.calls())) by {
        assert(radio.calls().subrange(0, before.len() as int) =~= before);
    }
    let ghost p = opts.poll_interval_us;
    let ghost mut m: nat = 0;
    let mut elapsed: u64 = 0;
    assert(before.push(start) + pending_calls::<E>(false, 0, p) =~= before.push(start));
    assert(m * p == 0) by (nonlinear_arith) requires m == 0;
    loop
        invariant
            opts.wf(),
            p == opts.poll_interval_us,
            elapsed <= opts.timeout_us,
            elapsed == m * p,
            radio.calls() == before.push(start) + pending_calls::<E>(false, m, p),
            before == old(radio).calls(),
            before.is_prefix_of(radio.calls()),
            start == (RadioCall::<E>::StartTransmit { data: data@, result: Ok(()) }),
        decreases opts.timeout_us - elapsed,
    {
        let ghost mid = radio.calls();
        let status = radio.check_transmit();
        assert(before.is_prefix_of(radio.calls())) by {
            assert(radio.calls().subrange(0, before.len() as int) =~= mid.subrange(0, before.len() as int));
        }
        proof {
            lemma_polled(false, m, p, status, before, start);
            assert(radio.calls() == before.push(start) + polled_calls(false, m, p, status));
        }
        match status {
            Err(e) => return Err(BlockingError::Inner(e)),
            Ok(true) => return Ok(()),
            Ok(false) => {},
        }
        let ghost mid2 = radio.calls();
        radio.delay_us(opts.poll_interval_us);
        proof {
            assert(before.is_prefix_of(radio.calls())) by {
                assert(radio.calls().subrange(0, before.len() as int) =~= mid2.subrange(0, before.len() as int));
            }
            lemma_pending_step(false, m, p, before, start);
            assert((m + 1) * p == m * p + p) by (nonlinear_arith);
            assert(((m + 1) as nat - 1) * p == m * p);
            m = m + 1;
        }
        match after_pending(opts, elapsed) {
            None => return Err(BlockingError::Timeout),
            Some(n) => {
                elapsed = n;
            },
        }
    }
}

/// Blocking receive: enters listen mode, then checks for a frame (restarting
/// reception), waiting one poll interval after each check that found none,
/// until a frame is waiting, the device fails, or the waits exceed the
/// timeout. A waiting frame is fetched into `buff`; its length is the one
/// reported, cut to `buff`. The calls made are exactly these, and a device
/// error comes back unchanged.
pub fn blocking_receive<T: Receive<I, E> + Delay, I, E>(radio: &mut Logged<T, E>, buff: &mut [u8], opts: &BlockingOptions) -> (r: Result<(usize, I), BlockingError<E>>)
    requires
        opts.wf(),
    ensures
        old(radio).calls().is_prefix_of(final(radio).calls()),
        receive_calls(*opts, old(radio).calls(), final(radio).calls(), final(buff)@, fetched_length(r)),
{
    let ghost before = radio.calls();
    let started = radio.start_receive();
    let ghost start = RadioCall::<E>::StartReceive { result: started };
    match started {
        Err(e) => return Err(BlockingError::Inner(e)),
        Ok(u) => {
            assert(u == ());
        },
    }
    assert(radio.calls() == before.push(start));
    assert(before.is_prefix_of(radio.calls())) by {
        assert(radio.calls().subrange(0, before.len() as int) =~= before);
    }
    let ghost p = opts.poll_interval_us;
    let ghost mut m: nat = 0;
    let mut elapsed: u64 = 0;
    assert(before.push(start) + pending_calls::<E>(true, 0, p) =~= before.push(start));
    assert(m * p == 0) by (nonlinear_arith) requires m == 0;
    loop
        invariant
            opts.wf(),
            p == opts.poll_interval_us,
            elapsed <= opts.timeout_us,
            elapsed == m * p,
            radio.calls() == before.push(start) + pending_calls::<E>(true, m, p),
            before == old(radio).calls(),
            before.is_prefix_of(radio.calls()),
            start == (RadioCall::<E>::StartReceive { result: Ok(()) }),
        decreases opts.timeout_us - elapsed,
    {
        let ghost mid = radio.calls();
        let status = radio.check_receive(true);
        assert(before.is_prefix_of(radio.calls())) by {
            assert(radio.calls().subrange(0, before.len() as int) =~= mid.subrange(0, before.len() as int));
        }
        proof {
            lemma_polled(true, m, p, status, before, start);
            assert(radio.calls() == before.push(start) + polled_calls(true, m, p, status));
        }
        match status {
            Err(e) => return Err(BlockingError::Inner(e)),
            Ok(true) => {
                let ghost checks = radio.calls();
                let got = radio.get_received(buff);
                assert(before.is_prefix_of(radio.calls())) by {
                    assert(radio.calls().subrange(0, before.len() as int) =~= checks.subrange(0, before.len() as int));
                }
                assert(radio.calls().drop_last() =~= checks);
                return match got {
                    Err(e) => Err(BlockingError::Inner(e)),
                    Ok((n, info)) => {
                        let len = if n > buff.len() { buff.len() } else { n };
                        Ok((len, info))
                    },
                };
            },
            Ok(false) => {},
        }
        let ghost mid2 = radio.calls();
        radio.delay_us(opts.poll_interval_us);
        proof {
            assert(before.is_prefix_of(radio.calls())) by {
                assert(radio.calls().subrange(0, before.len() as int) =~= mid2.subrange(0, before.len() as int));
            }
            lemma_pending_step(true, m, p, before, start);
            assert((m + 1) * p == m * p + p) by (nonlinear_arith);
            assert(((m + 1) as nat - 1) * p == m * p);
            m = m + 1;
        }
        match after_pending(opts, elapsed) {
            None => return Err(BlockingError::Timeout),
            Some(n) => {
                elapsed = n;
            },
        }
    }
}

} // verus!
