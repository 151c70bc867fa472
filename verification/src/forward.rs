//! The duplex forwarding protocol: what each direction of an admitted session
//! does in reaction to one read outcome, and what a whole run of either
//! direction writes to its far side.
//!
//! The surrounding process performs the reads and writes; it hands every read
//! outcome to `serial_step` or `net_step` and carries out the returned action.

use vstd::prelude::*;

verus! {

/// One outcome of a bounded read from the serial device.
pub enum SerialEvent {
    /// The read returned these bytes (possibly none) within the timeout.
    Data(Vec<u8>),
    /// The timeout elapsed with nothing read: not an error.
    TimedOut,
    /// The read failed for any other reason.
    Failed,
}

/// What the serial→network direction does in reaction to one serial read.
///
/// There is no stop action: this direction never terminates itself, whatever
/// the read outcome.
pub enum SerialAction {
    /// Write exactly these bytes to the network side.
    ForwardToNet(Vec<u8>),
    /// Write nothing and read again at once.
    Idle,
    /// Report the error on the console, write nothing, and read again.
    ReportError,
}

/// One outcome of a read from the network side.
pub enum NetEvent {
    /// The read returned these bytes; none means the peer closed.
    Got(Vec<u8>),
    /// The read failed.
    Failed,
}

/// What the network→serial direction does in reaction to one network read.
pub enum NetAction {
    /// Write exactly these bytes to the serial device.
    ForwardToSerial(Vec<u8>),
    /// Stop the direction: the peer closed. Nothing is written for the close,
    /// not even a zero-length write.
    Stop,
    /// Stop the direction and surface the read error as the session's ending
    /// condition. Nothing is written.
    StopOnError,
}

/// The decision of the serial→network direction for one read outcome.
pub open spec fn serial_action_of(ev: SerialEvent) -> SerialAction {
    match ev {
        SerialEvent::Data(b) => SerialAction::ForwardToNet(b),
        SerialEvent::TimedOut => SerialAction::Idle,
        SerialEvent::Failed => SerialAction::ReportError,
    }
}

/// The decision of the network→serial direction for one read outcome: forward
/// the bytes while the peer sends any, stop on a zero-byte read or an error.
pub open spec fn net_action_of(ev: NetEvent) -> NetAction {
    match ev {
        NetEvent::Got(b) => if b@.len() == 0 {
            NetAction::Stop
        } else {
            NetAction::ForwardToSerial(b)
        },
        NetEvent::Failed => NetAction::StopOnError,
    }
}

/// One step of the serial→network direction.
pub fn serial_step(ev: SerialEvent) -> (a: SerialAction)
    ensures
        a == serial_action_of(ev),
{
    match ev {
        SerialEvent::Data(b) => SerialAction::ForwardToNet(b),
        SerialEvent::TimedOut => SerialAction::Idle,
        SerialEvent::Failed => SerialAction::ReportError,
    }
}

/// One step of the network→serial direction.
pub fn net_step(ev: NetEvent) -> (a: NetAction)
    ensures
        a == net_action_of(ev),
{
    match ev {
        NetEvent::Got(b) => if b.len() == 0 {
            NetAction::Stop
        } else {
            NetAction::ForwardToSerial(b)
        },
        NetEvent::Failed => NetAction::StopOnError,
    }
}

/// The first `n` bytes of a read buffer: exactly what one read produced.
pub fn chunk(buf: &Vec<u8>, n: usize) -> (r: Vec<u8>)
    requires
        n <= buf.len(),
    ensures
        r@ == buf@.take(n as int),
{
    let mut r: Vec<u8> = Vec::new();
    let mut i: usize = 0;
    while i < n
        invariant
            i <= n,
            n <= buf.len(),
            r@ == buf@.take(i as int),
        decreases n - i,
    {
        r.push(buf[i]);
        proof {
            assert(buf@.take(i + 1 as int) =~= buf@.take(i as int).push(buf@[i as int]));
        }
        i = i + 1;
    }
    r
}

/// The bytes the serial device produced in one read outcome.
pub open spec fn serial_payload(ev: SerialEvent) -> Seq<u8> {
    match ev {
        SerialEvent::Data(b) => b@,
        _ => Seq::<u8>::empty(),
    }
}

/// All bytes the serial device produced over a sequence of read outcomes.
pub open spec fn device_bytes(evs: Seq<SerialEvent>) -> Seq<u8>
    decreases evs.len(),
{
    if evs.len() == 0 {
        Seq::<u8>::empty()
    } else {
        serial_payload(evs.first()) + device_bytes(evs.drop_first())
    }
}

/// The bytes one action of the serial→network direction writes to the network.
pub open spec fn serial_action_bytes(a: SerialAction) -> Seq<u8> {
    match a {
        SerialAction::ForwardToNet(b) => b@,
        _ => Seq::<u8>::empty(),
    }
}

/// What the serial→network direction writes to the network over a sequence of
/// read outcomes, one decision per outcome, none of them a stop.
pub open spec fn net_writes(evs: Seq<SerialEvent>) -> Seq<u8>
    decreases evs.len(),
{
    if evs.len() == 0 {
        Seq::<u8>::empty()
    } else {
        serial_action_bytes(serial_action_of(evs.first())) + net_writes(evs.drop_first())
    }
}

/// The network output of two runs in a row is the output of one run over the
/// two outcome sequences joined.
pub proof fn lemma_net_writes_append(a: Seq<SerialEvent>, b: Seq<SerialEvent>)
    ensures
        net_writes(a + b) == net_writes(a) + net_writes(b),
    decreases a.len(),
{
    if a.len() == 0 {
        assert(a + b =~= b);
        assert(net_writes(a) + net_writes(b) =~= net_writes(b));
    } else {
        assert((a + b).drop_first() =~= a.drop_first() + b);
        lemma_net_writes_append(a.drop_first(), b);
        assert(serial_action_bytes(serial_action_of(a.first())) + (net_writes(a.drop_first())
            + net_writes(b)) =~= net_writes(a) + net_writes(b));
    }
}

/// Every byte sequence the serial device produces while a client is admitted
/// reaches that client exactly and in order: the bytes written to the network
/// are the bytes the device produced, whatever timeouts and read errors stand
/// between them.
pub proof fn lemma_serial_to_net_exact(evs: Seq<SerialEvent>)
    ensures
        net_writes(evs) == device_bytes(evs),
    decreases evs.len(),
{
    if evs.len() > 0 {
        lemma_serial_to_net_exact(evs.drop_first());
    }
}

/// A timed-out serial read is silent: inserting one anywhere in a run leaves
/// the network output unchanged, and the direction has no stop action, so the
/// timeout does not terminate it either.
pub proof fn lemma_timeout_writes_nothing(evs: Seq<SerialEvent>, i: int)
    requires
        0 <= i <= evs.len(),
    ensures
        net_writes(evs.insert(i, SerialEvent::TimedOut)) == net_writes(evs),
{
    let t = SerialEvent::TimedOut;
    assert(evs.insert(i, t) =~= evs.take(i) + (seq![t] + evs.skip(i)));
    lemma_net_writes_append(evs.take(i), seq![t] + evs.skip(i));
    lemma_net_writes_append(seq![t], evs.skip(i));
    assert(net_writes(seq![t]) =~= Seq::<u8>::empty()) by {
        assert(seq![t].first() == t);
        assert(seq![t].drop_first() =~= Seq::<SerialEvent>::empty());
        assert(net_writes(seq![t]) == serial_action_bytes(serial_action_of(t)) + net_writes(
            Seq::<SerialEvent>::empty(),
        ));
    }
    assert(evs.take(i) + evs.skip(i) =~= evs);
    lemma_net_writes_append(evs.take(i), evs.skip(i));
    assert(net_writes(evs.insert(i, t)) =~= net_writes(evs));
}

/// The bytes the client sent in one read outcome.
pub open spec fn net_payload(ev: NetEvent) -> Seq<u8> {
    match ev {
        NetEvent::Got(b) => b@,
        _ => Seq::<u8>::empty(),
    }
}

/// All bytes the client sent over a sequence of read outcomes.
pub open spec fn client_bytes(evs: Seq<NetEvent>) -> Seq<u8>
    decreases evs.len(),
{
    if evs.len() == 0 {
        Seq::<u8>::empty()
    } else {
        net_payload(evs.first()) + client_bytes(evs.drop_first())
    }
}

/// The direction keeps running after this read outcome.
pub open spec fn net_continues(ev: NetEvent) -> bool {
    ev matches NetEvent::Got(b) && b@.len() > 0
}

/// What the network→serial direction writes to the serial device over a
/// sequence of read outcomes: the payload of every read before the first stop
/// decision, and nothing from that decision on.
pub open spec fn serial_writes(evs: Seq<NetEvent>) -> Seq<u8>
    decreases evs.len(),
{
    if evs.len() == 0 {
        Seq::<u8>::empty()
    } else if net_continues(evs.first()) {
        net_payload(evs.first()) + serial_writes(evs.drop_first())
    } else {
        Seq::<u8>::empty()
    }
}

/// While the client keeps sending, every byte it writes reaches the serial
/// device exactly and in order.
pub proof fn lemma_net_to_serial_exact(evs: Seq<NetEvent>)
    requires
        forall|i: int| 0 <= i < evs.len() ==> net_continues(#[trigger] evs[i]),
    ensures
        serial_writes(evs) == client_bytes(evs),
    decreases evs.len(),
{
    if evs.len() > 0 {
        assert(forall|i: int|
            0 <= i < evs.drop_first().len() ==> net_continues(#[trigger] evs.drop_first()[i]));
        lemma_net_to_serial_exact(evs.drop_first());
    }
}

/// Once a stop decision is reached, nothing more is written: the direction's
/// output is exactly the client's bytes up to the stopping read.
pub proof fn lemma_stop_ends_direction(evs: Seq<NetEvent>, k: int)
    requires
        0 <= k < evs.len(),
        !net_continues(evs[k]),
        forall|i: int| 0 <= i < k ==> net_continues(#[trigger] evs[i]),
    ensures
        serial_writes(evs) == client_bytes(evs.take(k)),
    decreases k,
{
    if k == 0 {
        assert(client_bytes(evs.take(0)) =~= Seq::<u8>::empty());
    } else {
        let rest = evs.drop_first();
        assert(forall|i: int| 0 <= i < k - 1 ==> net_continues(#[trigger] rest[i]));
        lemma_stop_ends_direction(rest, k - 1);
        assert(evs.take(k).drop_first() =~= rest.take(k - 1));
    }
}

/// A zero-byte network read is a clean close: the direction stops, what the
/// client sent before it has been forwarded, and no zero-length write reaches
/// the serial device.
pub proof fn lemma_close_stops_direction(evs: Seq<NetEvent>, k: int)
    requires
        0 <= k < evs.len(),
        evs[k] matches NetEvent::Got(b) && b@.len() == 0,
        forall|i: int| 0 <= i < k ==> net_continues(#[trigger] evs[i]),
    ensures
        serial_writes(evs) == client_bytes(evs.take(k)),
{
    lemma_stop_ends_direction(evs, k);
}

fn copy_bytes(src: &Vec<u8>) -> (r: Vec<u8>)
    ensures
        r@ == src@,
{
    let mut r: Vec<u8> = Vec::new();
    let mut i: usize = 0;
    while i < src.len()
        invariant
            i <= src.len(),
            r@ == src@.take(i as int),
        decreases src.len() - i,
    {
        r.push(src[i]);
        proof {
            assert(src@.take(i + 1 as int) =~= src@.take(i as int).push(src@[i as int]));
        }
        i = i + 1;
    }
    proof {
        assert(src@.take(src@.len() as int) =~= src@);
    }
    r
}

fn push_all(out: &mut Vec<u8>, src: &Vec<u8>)
    ensures
        final(out)@ == old(out)@ + src@,
{
    let mut i: usize = 0;
    while i < src.len()
        invariant
            i <= src.len(),
            out@ == old(out)@ + src@.take(i as int),
        decreases src.len() - i,
    {
        out.push(src[i]);
        proof {
            assert(old(out)@ + src@.take(i + 1 as int) =~= (old(out)@ + src@.take(i as int)).push(
                src@[i as int],
            ));
        }
        i = i + 1;
    }
    proof {
        assert(old(out)@ + src@.take(src@.len() as int) =~= old(out)@ + src@);
    }
}

/// Run the serial→network direction over a whole sequence of read outcomes:
/// every outcome is processed — the direction never stops itself — and the
/// bytes written to the network come back in order.
pub fn run_serial_direction(evs: &Vec<SerialEvent>) -> (out: Vec<u8>)
    ensures
        out@ == net_writes(evs@),
        out@ == device_bytes(evs@),
{
    let mut out: Vec<u8> = Vec::new();
    let mut i: usize = 0;
    while i < evs.len()
        invariant
            i <= evs.len(),
            out@ == net_writes(evs@.take(i as int)),
        decreases evs.len() - i,
    {
        let ghost prefix = evs@.take(i as int);
        let ev: &SerialEvent = &evs[i];
        let owned: SerialEvent = match ev {
            SerialEvent::Data(b) => SerialEvent::Data(copy_bytes(b)),
            SerialEvent::TimedOut => SerialEvent::TimedOut,
            SerialEvent::Failed => SerialEvent::Failed,
        };
        proof {
            assert(serial_action_bytes(serial_action_of(owned)) == serial_action_bytes(
                serial_action_of(evs@[i as int]),
            ));
        }
        match serial_step(owned) {
            SerialAction::ForwardToNet(b) => { push_all(&mut out, &b) },
            SerialAction::Idle => {},
            SerialAction::ReportError => {},
        }
        proof {
            let e = evs@[i as int];
            assert(evs@.take(i + 1 as int) =~= prefix + seq![e]);
            lemma_net_writes_append(prefix, seq![e]);
            assert(net_writes(seq![e]) =~= serial_action_bytes(serial_action_of(e))) by {
                assert(seq![e].first() == e);
                assert(seq![e].drop_first() =~= Seq::<SerialEvent>::empty());
                assert(net_writes(seq![e]) == serial_action_bytes(serial_action_of(e))
                    + net_writes(Seq::<SerialEvent>::empty()));
            }
        }
        i = i + 1;
    }
    proof {
        assert(evs@.take(evs@.len() as int) =~= evs@);
        lemma_serial_to_net_exact(evs@);
    }
    out
}

/// Run the network→serial direction over a sequence of read outcomes: forward
/// every payload until the first stop decision, then stop. The bytes written
/// to the serial device come back, with whether the run was stopped by one of
/// the outcomes (rather than running out of them).
pub fn run_net_direction(evs: &Vec<NetEvent>) -> (r: (Vec<u8>, bool))
    ensures
        r.0@ == serial_writes(evs@),
        r.1 == exists|k: int| 0 <= k < evs@.len() && !net_continues(evs@[k]),
{
    let mut out: Vec<u8> = Vec::new();
    let mut i: usize = 0;
    let mut stopped: bool = false;
    while i < evs.len() && !stopped
        invariant
            i <= evs.len(),
            !stopped ==> out@ == serial_writes(evs@.take(i as int)),
            !stopped ==> forall|j: int| 0 <= j < i ==> net_continues(#[trigger] evs@[j]),
            stopped ==> out@ == serial_writes(evs@),
            stopped ==> exists|k: int| 0 <= k < evs@.len() && !net_continues(evs@[k]),
        decreases evs.len() - i,
    {
        let ghost prefix = evs@.take(i as int);
        let ev: &NetEvent = &evs[i];
        let owned: NetEvent = match ev {
            NetEvent::Got(b) => NetEvent::Got(copy_bytes(b)),
            NetEvent::Failed => NetEvent::Failed,
        };
        match net_step(owned) {
            NetAction::ForwardToSerial(b) => {
                push_all(&mut out, &b);
                proof {
                    assert(net_continues(evs@[i as int]));
                    assert(b@ == net_payload(evs@[i as int]));
                    lemma_serial_writes_extend(evs@, i as int);
                }
            },
            NetAction::Stop => {
                stopped = true;
                proof {
                    assert(!net_continues(evs@[i as int]));
                    lemma_stop_ends_direction(evs@, i as int);
                    assert(forall|j: int| 0 <= j < prefix.len() ==> net_continues(
                        #[trigger] prefix[j],
                    ));
                    lemma_net_to_serial_exact(prefix);
                    assert(out@ == serial_writes(evs@));
                }
            },
            NetAction::StopOnError => {
                stopped = true;
                proof {
                    assert(!net_continues(evs@[i as int]));
                    lemma_stop_ends_direction(evs@, i as int);
                    assert(forall|j: int| 0 <= j < prefix.len() ==> net_continues(
                        #[trigger] prefix[j],
                    ));
                    lemma_net_to_serial_exact(prefix);
                    assert(out@ == serial_writes(evs@));
                }
            },
        }
        i = i + 1;
    }
    proof {
        if !stopped {
            assert(evs@.take(evs@.len() as int) =~= evs@);
        }
    }
    (out, stopped)
}

/// While every read so far continued the direction, the next continuing read
/// appends exactly its payload to the direction's output.
proof fn lemma_serial_writes_extend(evs: Seq<NetEvent>, i: int)
    requires
        0 <= i < evs.len(),
        forall|j: int| 0 <= j < i ==> net_continues(#[trigger] evs[j]),
        net_continues(evs[i]),
    ensures
        serial_writes(evs.take(i + 1)) == serial_writes(evs.take(i)) + net_payload(evs[i]),
    decreases i,
{
    if i == 0 {
        assert(evs.take(1).first() == evs[0]);
        assert(evs.take(1).drop_first() =~= Seq::<NetEvent>::empty());
        assert(serial_writes(evs.take(1)) == net_payload(evs[0]) + serial_writes(
            Seq::<NetEvent>::empty(),
        ));
        assert(net_payload(evs[0]) + Seq::<u8>::empty() =~= net_payload(evs[0]));
        assert(serial_writes(evs.take(0)) =~= Seq::<u8>::empty());
        assert(serial_writes(evs.take(0)) + net_payload(evs[0]) =~= net_payload(evs[0]));
    } else {
        let rest = evs.drop_first();
        assert(net_continues(evs[0]));
        assert(forall|j: int| 0 <= j < i - 1 ==> net_continues(#[trigger] rest[j]));
        assert(net_continues(rest[i - 1]));
        lemma_serial_writes_extend(rest, i - 1);
        assert(rest[i - 1] == evs[i]);
        assert(evs.take(i + 1).first() == evs[0]);
        assert(evs.take(i).first() == evs[0]);
        assert(evs.take(i + 1).drop_first() =~= rest.take(i));
        assert(evs.take(i).drop_first() =~= rest.take(i - 1));
        assert(serial_writes(evs.take(i + 1)) == net_payload(evs[0]) + serial_writes(rest.take(
            i,
        )));
        assert(serial_writes(evs.take(i)) == net_payload(evs[0]) + serial_writes(rest.take(
            i - 1,
        )));
        assert(net_payload(evs[0]) + (serial_writes(rest.take(i - 1)) + net_payload(
            evs[i],
        )) =~= serial_writes(evs.take(i)) + net_payload(evs[i]));
    }
}

} // verus!
