//! The round-trip link test: indexed probes, echoed replies, loss counting and
//! signal-strength statistics.
use vstd::prelude::*;
use crate::blocking::{blocking_receive, blocking_transmit, receive_calls, transmit_calls, BlockingError, BlockingOptions};
use crate::helpers::apply_power;
use crate::codec::{i16_be, read_i16, read_u32, u32_be, write_u32};
use crate::radio::{Delay, Logged, Power, RadioCall, Receive, ReceiveInfo, Transmit};
use crate::stats::RssiStats;

verus! {

/// Configuration of a link test.
#[derive(Clone, Copy, Debug, PartialEq, Eq)]
pub struct PingPongOptions {
    /// Number of rounds.
    pub rounds: u32,
    /// Output power in dBm, set once before the first round.
    pub power: Option<i8>,
    /// Wait after each round, in microseconds.
    pub delay_us: u32,
    /// Whether replies carry the peer's signal strength after the index.
    pub parse_info: bool,
    pub blocking_options: BlockingOptions,
}

/// The result of a link test.
pub struct LinkTestInfo {
    /// Rounds requested.
    pub sent: u32,
    /// Rounds whose reply was accepted.
    pub received: u32,
    /// Signal strength of accepted replies, as measured here.
    pub local_rssi: RssiStats,
    /// Signal strength reported by the peer in accepted replies.
    pub remote_rssi: RssiStats,
}

/// What came back in one round: nothing within the timeout, or a frame with
/// the signal strength it was received at.
pub enum RoundReply {
    Silent,
    Frame { payload: Seq<u8>, rssi: i16 },
}

/// Whether `payload` answers round `index`: it starts with the index, and
/// with `parse_info` it holds the peer's signal strength in the next two
/// bytes. `Some` carries that strength where it is expected.
pub open spec fn reply_verdict(index: int, payload: Seq<u8>, parse_info: bool) -> Option<Option<i16>> {
    if payload.len() < 4 || u32_be(payload) != index {
        None
    } else if parse_info {
        if payload.len() < 6 {
            None
        } else {
            Some(Some(i16_be(payload.subrange(4, 6)) as i16))
        }
    } else {
        Some(None)
    }
}

/// The counts and samples a link test gathers.
pub struct LinkTally {
    pub received: nat,
    pub local: Seq<i16>,
    pub remote: Seq<i16>,
}

/// What a link test gathers from `replies`, where `replies[i]` came back in round `i`.
pub open spec fn tally(parse_info: bool, replies: Seq<RoundReply>) -> LinkTally
    decreases replies.len(),
{
    if replies.len() == 0 {
        LinkTally { received: 0, local: Seq::empty(), remote: Seq::empty() }
    } else {
        let prev = tally(parse_info, replies.drop_last());
        match replies.last() {
            RoundReply::Silent => prev,
            RoundReply::Frame { payload, rssi } => match reply_verdict(replies.len() - 1, payload, parse_info) {
                None => prev,
                Some(remote) => LinkTally {
                    received: prev.received + 1,
                    local: prev.local.push(rssi),
                    remote: match remote {
                        Some(v) => prev.remote.push(v),
                        None => prev.remote,
                    },
                },
            },
        }
    }
}

impl LinkTestInfo {
    /// The statistics are well formed and hold one local sample per accepted
    /// round.
    pub open spec fn wf(&self) -> bool {
        &&& self.local_rssi.wf()
        &&& self.remote_rssi.wf()
        &&& self.local_rssi@.len() == self.received
    }

    /// Whether this summary is what `tally` gives.
    pub open spec fn agrees_with(&self, t: LinkTally) -> bool {
        &&& self.received == t.received
        &&& self.local_rssi@ == t.local
        &&& self.remote_rssi@ == t.remote
    }
}

/// Judges the first `n` bytes of `buff` as the reply to round `index`.
pub fn check_reply(index: u32, buff: &[u8], n: usize, parse_info: bool) -> (r: Option<Option<i16>>)
    requires
        n <= buff@.len(),
    ensures
        r == reply_verdict(index as int, buff@.subrange(0, n as int), parse_info),
{
    let ghost payload = buff@.subrange(0, n as int);
    if n < 4 {
        return None;
    }
    assert(u32_be(payload) == u32_be(buff@));
    let echoed = match read_u32(buff) {
        Some(v) => v,
        None => return None,
    };
    if echoed != index {
        return None;
    }
    if !parse_info {
        return Some(None);
    }
    if n < 6 {
        return None;
    }
    assert(payload.subrange(4, 6) =~= buff@.subrange(4, 6));
    match read_i16(buff, 4) {
        Some(v) => Some(Some(v)),
        None => None,
    }
}

/// Books the reply held in the first `n` bytes of `buff` for round `index`,
/// received at signal strength `rssi`: an accepted reply counts as received,
/// adds its local strength, and adds the peer's strength when it carries one;
/// any other reply changes nothing.
pub fn record_round(info: &mut LinkTestInfo, index: u32, buff: &[u8], n: usize, rssi: i16, parse_info: bool)
    requires
        old(info).wf(),
        n <= buff@.len(),
        old(info).received < u32::MAX,
        old(info).remote_rssi@.len() < u32::MAX,
    ensures
        final(info).wf(),
        final(info).sent == old(info).sent,
        match reply_verdict(index as int, buff@.subrange(0, n as int), parse_info) {
            None => final(info).received == old(info).received
                && final(info).local_rssi@ == old(info).local_rssi@
                && final(info).remote_rssi@ == old(info).remote_rssi@,
            Some(remote) => final(info).received == old(info).received + 1
                && final(info).local_rssi@ == old(info).local_rssi@.push(rssi)
                && final(info).remote_rssi@ == match remote {
                    Some(v) => old(info).remote_rssi@.push(v),
                    None => old(info).remote_rssi@,
                },
        },
{
    match check_reply(index, buff, n, parse_info) {
        None => {},
        Some(remote) => {
            info.received = info.received + 1;
            info.local_rssi.update(rssi);
            if let Some(v) = remote {
                info.remote_rssi.update(v);
            }
        },
    }
}

/// Link test: for each round, sends the round index as four bytes, waits for
/// a reply within the blocking options, and counts the replies that echo the
/// index, with their signal strengths. A silent round is skipped; a transmit
/// failure or a device fault while receiving ends the test with that error.
pub fn do_ping_pong<T, I, E>(radio: &mut Logged<T, E>, options: &PingPongOptions) -> (r: Result<LinkTestInfo, BlockingError<E>>)
    where
        T: Receive<I, E> + Transmit<E> + Power<E> + Delay,
        I: ReceiveInfo,
    requires
        options.blocking_options.wf(),
    ensures
        match r {
            Ok(info) => {
                &&& info.wf()
                &&& info.sent == options.rounds
                &&& exists|replies: Seq<RoundReply>, spans: Seq<(Seq<RadioCall<E>>, Seq<RadioCall<E>>)>|
                    #[trigger] rounds_logged(*options, powered_calls(options.power, old(radio).calls()), final(radio).calls(), replies, spans)
                    && replies.len() == options.rounds && info.agrees_with(tally(options.parse_info, replies))
            },
            Err(e) => {
                ||| options.power is Some && final(radio).calls().len() == old(radio).calls().len() + 1
                    && final(radio).calls().drop_last() == old(radio).calls()
                    && (final(radio).calls().last() matches RadioCall::SetPower { result: Err(f), .. } && e == BlockingError::Inner(f))
                ||| exists|replies: Seq<RoundReply>, spans: Seq<(Seq<RadioCall<E>>, Seq<RadioCall<E>>)>, mid: Seq<RadioCall<E>>|
                    #[trigger] rounds_logged(*options, powered_calls(options.power, old(radio).calls()), mid, replies, spans)
                    && replies.len() < options.rounds && round_failed(*options, replies.len() as int, mid, final(radio).calls(), e)
            },
        },
        options.rounds == 0 && options.power is None ==> (r matches Ok(info) && info.received == 0),
        old(radio).calls().is_prefix_of(final(radio).calls()),
        match options.power {
            None => true,
            Some(p) => final(radio).calls().len() > old(radio).calls().len()
                && (final(radio).calls()[old(radio).calls().len() as int] matches RadioCall::SetPower { power: q, result: res }
                    && q == p
                    && (res matches Err(e) ==> r == Err::<LinkTestInfo, BlockingError<E>>(BlockingError::Inner(e))
                        && final(radio).calls().len() == old(radio).calls().len() + 1)),
        },
{
    let mut info = LinkTestInfo {
        sent: options.rounds,
        received: 0,
        local_rssi: RssiStats::new(),
        remote_rssi: RssiStats::new(),
    };
    let mut buff: Vec<u8> = vec![0u8; 32];
    let ghost before = radio.calls();
    match apply_power(radio, options.power) {
        Err(e) => return Err(e),
        Ok(()) => {},
    }
    let ghost powered = radio.calls();
    proof {
        if options.power is Some {
            assert(powered =~= before.push(powered.last()));
            match powered.last() {
                RadioCall::SetPower { result: Ok(u), .. } => {
                    assert(u == ());
                },
                _ => {},
            }
            assert(before.is_prefix_of(powered)) by {
                assert(powered.subrange(0, before.len() as int) =~= before);
            }
        }
    }
    let ghost mut replies: Seq<RoundReply> = Seq::empty();
    let ghost mut spans: Seq<(Seq<RadioCall<E>>, Seq<RadioCall<E>>)> = Seq::empty();
    let mut i: u32 = 0;
    while i < options.rounds
        invariant
            options.blocking_options.wf(),
            i <= options.rounds,
            replies.len() == i,
            info.wf(),
            info.sent == options.rounds,
            info.agrees_with(tally(options.parse_info, replies)),
            info.received <= i,
            info.remote_rssi@.len() <= i,
            before == old(radio).calls(),
            before.is_prefix_of(powered),
            powered.is_prefix_of(radio.calls()),
            power_set_first(options.power, before, powered),
            rounds_logged(*options, powered, radio.calls(), replies, spans),
        decreases options.rounds - i,
    {
        let msg = write_u32(i);
        let ghost c0 = radio.calls();
        let transmitted = blocking_transmit(radio, msg.as_slice(), &options.blocking_options);
        match transmitted {
            Err(e) => {
                proof {
                    lemma_prefix_trans(powered, c0, radio.calls());
                    lemma_power_kept(options.power, before, powered, radio.calls());
                    assert(probe_failed(*options, i as int, c0, radio.calls(), msg@, radio.calls(), buff@, e));
                }
                return Err(e);
            },
            Ok(u) => {
                assert(u == ());
            },
        }
        proof {
            lemma_prefix_trans(powered, c0, radio.calls());
        }
        let ghost c1 = radio.calls();
        let received = blocking_receive(radio, buff.as_mut_slice(), &options.blocking_options);
        proof {
            lemma_prefix_trans(powered, c1, radio.calls());
            lemma_power_kept(options.power, before, powered, radio.calls());
        }
        let ghost c2 = radio.calls();
        let ghost mut got: usize = 0;
        let ghost old_replies = replies;
        match received {
            Err(BlockingError::Timeout) => {
                proof {
                    let next = replies.push(RoundReply::Silent);
                    assert(next.drop_last() =~= replies);
                    replies = next;
                }
            },
            Err(e) => {
                proof {
                    assert(probe_failed(*options, i as int, c0, radio.calls(), msg@, c1, buff@, e));
                }
                return Err(e);
            },
            Ok((n, rx)) => {
                let rssi = rx.rssi();
                proof {
                    got = n;
                    let next = replies.push(RoundReply::Frame { payload: buff@.subrange(0, n as int), rssi });
                    assert(next.drop_last() =~= replies);
                    replies = next;
                }
                record_round(&mut info, i, buff.as_slice(), n, rssi, options.parse_info);
            },
        }
        proof {
            lemma_tally_bounded(options.parse_info, replies);
        }
        let ghost c3 = radio.calls();
        radio.delay_us(options.delay_us);
        proof {
            assert(c3.is_prefix_of(radio.calls())) by {
                assert(radio.calls().subrange(0, c3.len() as int) =~= c3);
            }
            lemma_prefix_trans(powered, c3, radio.calls());
            let reply = replies.last();
            assert(probe_heard(*options, i as int, c0, msg@, c1, c2, buff@, got, reply));
            assert(round_calls(*options, i as int, c0, radio.calls(), reply));
            let old_spans = spans;
            spans = spans.push((c0, radio.calls()));
            assert forall|k: int| 0 <= k < spans.len() implies #[trigger] round_calls(*options, k, spans[k].0, spans[k].1, replies[k]) by {
                if k < old_spans.len() {
                    assert(spans[k] == old_spans[k]);
                    assert(replies[k] == old_replies[k]);
                }
            }
            assert forall|k: int| #![trigger spans[k]] 0 <= k < spans.len() - 1 implies spans[k].1 == spans[k + 1].0 by {
                if k < old_spans.len() - 1 {
                    assert(spans[k] == old_spans[k]);
                    assert(spans[k + 1] == old_spans[k + 1]);
                }
            }
        }
        i = i + 1;
    }
    proof {
        lemma_power_kept(options.power, before, powered, radio.calls());
    }
    Ok(info)
}

/// `before` followed, when a power is given, by the call that set it.
pub open spec fn powered_calls<E>(power: Option<i8>, before: Seq<RadioCall<E>>) -> Seq<RadioCall<E>> {
    match power {
        None => before,
        Some(p) => before.push(RadioCall::SetPower { power: p, result: Ok(()) }),
    }
}

/// Whether `after` is `before` followed, when a power is given, by the call
/// that set it.
pub open spec fn power_set_first<E>(
    power: Option<i8>,
    before: Seq<RadioCall<E>>,
    after: Seq<RadioCall<E>>,
) -> bool {
    after == powered_calls(power, before)
}

/// Round `index` from `before`: the probe `probe` (the index in four bytes)
/// was sent, giving the calls `sent`; then the blocking receive gave the
/// calls `heard` and left `buf` in the buffer. `reply` is what it brought:
/// silence when it timed out, else the first `n` bytes of the fetched frame.
pub open spec fn probe_heard<E>(
    options: PingPongOptions,
    index: int,
    before: Seq<RadioCall<E>>,
    probe: Seq<u8>,
    sent: Seq<RadioCall<E>>,
    heard: Seq<RadioCall<E>>,
    buf: Seq<u8>,
    n: usize,
    reply: RoundReply,
) -> bool {
    &&& probe.len() == 4
    &&& u32_be(probe) == index
    &&& transmit_calls(options.blocking_options, probe, before, sent, Ok(()))
    &&& match reply {
        RoundReply::Silent => receive_calls(options.blocking_options, sent, heard, buf, Err(BlockingError::Timeout)),
        RoundReply::Frame { payload, rssi } => receive_calls(options.blocking_options, sent, heard, buf, Ok(n))
            && n <= buf.len() && payload == buf.subrange(0, n as int),
    }
}

/// Whether `after` is `before` followed by the calls of round `index`, which
/// brought `reply`: the probe, the wait for its reply, and the round's delay.
pub open spec fn round_calls<E>(
    options: PingPongOptions,
    index: int,
    before: Seq<RadioCall<E>>,
    after: Seq<RadioCall<E>>,
    reply: RoundReply,
) -> bool {
    exists|probe: Seq<u8>, sent: Seq<RadioCall<E>>, heard: Seq<RadioCall<E>>, buf: Seq<u8>, n: usize|
        #[trigger] probe_heard(options, index, before, probe, sent, heard, buf, n, reply)
        && after == heard.push(RadioCall::Delay { us: options.delay_us })
}

/// Round `index` from `before` ended the test with `err`: sending the probe
/// failed, or it was sent (giving `sent`) and the receive failed on the device.
pub open spec fn probe_failed<E>(
    options: PingPongOptions,
    index: int,
    before: Seq<RadioCall<E>>,
    after: Seq<RadioCall<E>>,
    probe: Seq<u8>,
    sent: Seq<RadioCall<E>>,
    buf: Seq<u8>,
    err: BlockingError<E>,
) -> bool {
    &&& probe.len() == 4
    &&& u32_be(probe) == index
    &&& {
        ||| transmit_calls(options.blocking_options, probe, before, after, Err(err))
        ||| transmit_calls(options.blocking_options, probe, before, sent, Ok(()))
            && (err is Inner)
            && receive_calls(options.blocking_options, sent, after, buf, Err(err))
    }
}

/// Whether `after` is `before` followed by the calls of round `index`, which
/// ended the test with `err`.
pub open spec fn round_failed<E>(
    options: PingPongOptions,
    index: int,
    before: Seq<RadioCall<E>>,
    after: Seq<RadioCall<E>>,
    err: BlockingError<E>,
) -> bool {
    exists|probe: Seq<u8>, sent: Seq<RadioCall<E>>, buf: Seq<u8>|
        #[trigger] probe_failed(options, index, before, after, probe, sent, buf, err)
}

/// Whether `end` is `start` followed by the calls of complete rounds `0..`,
/// where round `k` spans `spans[k]` of the log and brought `replies[k]`.
pub open spec fn rounds_logged<E>(
    options: PingPongOptions,
    start: Seq<RadioCall<E>>,
    end: Seq<RadioCall<E>>,
    replies: Seq<RoundReply>,
    spans: Seq<(Seq<RadioCall<E>>, Seq<RadioCall<E>>)>,
) -> bool {
    &&& spans.len() == replies.len()
    &&& spans.len() == 0 ==> end == start
    &&& spans.len() > 0 ==> spans[0].0 == start && spans.last().1 == end
    &&& forall|k: int| #![trigger spans[k]] 0 <= k < spans.len() - 1 ==> spans[k].1 == spans[k + 1].0
    &&& forall|k: int| 0 <= k < spans.len() ==> #[trigger] round_calls(options, k, spans[k].0, spans[k].1, replies[k])
}

proof fn lemma_prefix_trans<E>(a: Seq<RadioCall<E>>, b: Seq<RadioCall<E>>, c: Seq<RadioCall<E>>)
    requires
        a.is_prefix_of(b),
        b.is_prefix_of(c),
    ensures
        a.is_prefix_of(c),
{
    assert(c.subrange(0, a.len() as int) =~= b.subrange(0, a.len() as int));
}

proof fn lemma_power_kept<E>(
    power: Option<i8>,
    before: Seq<RadioCall<E>>,
    powered: Seq<RadioCall<E>>,
    now: Seq<RadioCall<E>>,
)
    requires
        power_set_first(power, before, powered),
        powered.is_prefix_of(now),
    ensures
        before.is_prefix_of(now),
        power matches Some(p) ==> (now.len() > before.len()
            && now[before.len() as int] == (RadioCall::SetPower { power: p, result: Ok::<(), E>(()) })),
{
    if power is Some {
        assert(now.subrange(0, powered.len() as int)[before.len() as int] == now[before.len() as int]);
    }
    assert(now.subrange(0, before.len() as int) =~= powered.subrange(0, before.len() as int));
}

/// At most one local and one remote sample per round, and one accepted reply
/// per local sample.
pub proof fn lemma_tally_bounded(parse_info: bool, replies: Seq<RoundReply>)
    ensures
        tally(parse_info, replies).received == tally(parse_info, replies).local.len(),
        tally(parse_info, replies).local.len() <= replies.len(),
        tally(parse_info, replies).remote.len() <= replies.len(),
    decreases replies.len(),
{
    if replies.len() > 0 {
        lemma_tally_bounded(parse_info, replies.drop_last());
    }
}

/// A peer that never replies: nothing is received and both statistics stay empty.
pub proof fn law_silent_peer(parse_info: bool, replies: Seq<RoundReply>)
    requires
        forall|i: int| 0 <= i < replies.len() ==> #[trigger] replies[i] is Silent,
    ensures
        tally(parse_info, replies).received == 0,
        tally(parse_info, replies).local.len() == 0,
        tally(parse_info, replies).remote.len() == 0,
    decreases replies.len(),
{
    if replies.len() > 0 {
        let prev = replies.drop_last();
        assert forall|i: int| 0 <= i < prev.len() implies #[trigger] prev[i] is Silent by {
            assert(prev[i] == replies[i]);
        }
        assert(replies[replies.len() - 1] is Silent);
        law_silent_peer(parse_info, prev);
    }
}

/// A peer that answers every round with the round's index followed by its
/// signal strength: with `parse_info`, every round is received and both
/// statistics hold one sample per round.
pub proof fn law_cooperative_peer(replies: Seq<RoundReply>)
    requires
        forall|i: int| 0 <= i < replies.len() ==> match #[trigger] replies[i] {
            RoundReply::Frame { payload, rssi } => payload.len() >= 6 && u32_be(payload) == i,
            RoundReply::Silent => false,
        },
    ensures
        tally(true, replies).received == replies.len(),
        tally(true, replies).local.len() == replies.len(),
        tally(true, replies).remote.len() == replies.len(),
    decreases replies.len(),
{
    if replies.len() > 0 {
        let prev = replies.drop_last();
        assert forall|i: int| 0 <= i < prev.len() implies match #[trigger] prev[i] {
            RoundReply::Frame { payload, rssi } => payload.len() >= 6 && u32_be(payload) == i,
            RoundReply::Silent => false,
        } by {
            assert(prev[i] == replies[i]);
        }
        assert(match replies[replies.len() - 1] {
            RoundReply::Frame { payload, rssi } => payload.len() >= 6 && u32_be(payload) == replies.len() - 1,
            RoundReply::Silent => false,
        });
        law_cooperative_peer(prev);
    }
}

/// A reply that does not echo its round's index is dropped, whatever the
/// earlier rounds brought: rounds are judged independently.
pub proof fn law_mismatched_reply_dropped(parse_info: bool, replies: Seq<RoundReply>, payload: Seq<u8>, rssi: i16)
    requires
        payload.len() >= 4,
        u32_be(payload) != replies.len(),
    ensures
        tally(parse_info, replies.push(RoundReply::Frame { payload, rssi })) == tally(parse_info, replies),
{
    assert(replies.push(RoundReply::Frame { payload, rssi }).drop_last() =~= replies);
}

/// An accepted reply adds exactly one round to the count, whatever the
/// earlier rounds brought.
pub proof fn law_matching_reply_counted(parse_info: bool, replies: Seq<RoundReply>, payload: Seq<u8>, rssi: i16)
    requires
        reply_verdict(replies.len() as int, payload, parse_info) is Some,
    ensures
        tally(parse_info, replies.push(RoundReply::Frame { payload, rssi })).received
            == tally(parse_info, replies).received + 1,
        tally(parse_info, replies.push(RoundReply::Frame { payload, rssi })).local
            == tally(parse_info, replies).local.push(rssi),
{
    assert(replies.push(RoundReply::Frame { payload, rssi }).drop_last() =~= replies);
}

} // verus!
