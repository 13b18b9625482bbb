//! The protocol channel: the transport's buffered reader and writer, the
//! handshake flag, and the frame-level operations over them.
use crate::events::{led_op, reset, reset_state, set_led};
use crate::hardware::{apply_op, Hardware, HardwareState};
use crate::protocol::{
    append_bytes, bytes_eq, call_frame, copy_range, encode_call, return_frame, END,
    FUNCTION_HEADER, MAX_NAME_LEN, MAX_PAYLOAD_LEN, READY, RETURN_HEADER,
};
use vstd::prelude::*;
use vstd::string::StringSliceAdditionalSpecFns;

verus! {

/// What one call of `SerialComm::read` found and did.
#[derive(Clone, Copy, Debug, PartialEq, Eq, Structural)]
pub enum ReadOutcome {
    /// No byte was available.
    Idle,
    /// A ready handshake came in and was answered.
    Handshake,
    /// A known function ran and its reply was written.
    Called,
    /// A function-call frame named no known function; an empty reply was written.
    UnknownFunction,
    /// `reset` ran: the device restarts and nothing more is to be done.
    Restart,
    /// A function-call frame has begun but is not complete yet; nothing was consumed.
    Incomplete,
    /// A lone end marker was consumed.
    End,
    /// An unknown event byte came in; it and all available bytes were discarded.
    Discarded(u8),
}

/// What `SerialComm` holds, as mathematical values.
pub struct CommState {
    /// Bytes received and not yet consumed, oldest first.
    pub rx: Seq<u8>,
    /// Bytes written and not yet handed to the transport, oldest first.
    pub tx: Seq<u8>,
    /// Whether the handshake has completed.
    pub ready: bool,
}

/// The protocol channel. `ready` starts false and, once set, stays set.
pub struct SerialComm {
    rx: Vec<u8>,
    tx: Vec<u8>,
    ready: bool,
}

impl View for SerialComm {
    type V = CommState;

    closed spec fn view(&self) -> CommState {
        CommState { rx: self.rx@, tx: self.tx@, ready: self.ready }
    }
}

/// The name under which the host calls `set_led`.
pub open spec fn set_led_name() -> Seq<u8> {
    "set_led".spec_bytes()
}

/// The name under which the host calls `reset`.
pub open spec fn reset_name() -> Seq<u8> {
    "reset".spec_bytes()
}

/// Length of the name in the function-call frame at the front of `rx`.
pub open spec fn name_len(rx: Seq<u8>) -> int {
    rx[1] as int
}

/// Length of the payload in the function-call frame at the front of `rx`.
pub open spec fn payload_len(rx: Seq<u8>) -> int {
    rx[name_len(rx) + 2] as int + 256 * rx[name_len(rx) + 3] as int
}

/// The length of the whole function-call frame at the front of `rx`, once
/// all of it has arrived.
pub open spec fn call_frame_len(rx: Seq<u8>) -> Option<nat> {
    if rx.len() < 2 || rx.len() < name_len(rx) + 4 {
        None
    } else if rx.len() < name_len(rx) + payload_len(rx) + 5 {
        None
    } else {
        Some((name_len(rx) + payload_len(rx) + 5) as nat)
    }
}

/// The name in the function-call frame at the front of `rx`.
pub open spec fn frame_name(rx: Seq<u8>) -> Seq<u8> {
    rx.subrange(2, 2 + name_len(rx))
}

/// The payload in the function-call frame at the front of `rx`.
pub open spec fn frame_payload(rx: Seq<u8>) -> Seq<u8> {
    rx.subrange(name_len(rx) + 4, name_len(rx) + 4 + payload_len(rx))
}

/// The channel after a call of `name` with `payload`: framed onto the
/// writer once ready, dropped before.
pub open spec fn call_state(c: CommState, name: Seq<u8>, payload: Seq<u8>) -> CommState {
    if c.ready {
        CommState { rx: c.rx, tx: c.tx + call_frame(name, payload), ready: c.ready }
    } else {
        c
    }
}

/// One step of `read`: the channel and hardware after it, and its outcome.
pub open spec fn read_step(c: CommState, h: HardwareState) -> (CommState, HardwareState, ReadOutcome) {
    if c.rx.len() == 0 {
        (c, h, ReadOutcome::Idle)
    } else if c.rx[0] == READY {
        (CommState { rx: c.rx.drop_first(), tx: c.tx.push(READY), ready: true }, h, ReadOutcome::Handshake)
    } else if c.rx[0] == FUNCTION_HEADER {
        match call_frame_len(c.rx) {
            None => (c, h, ReadOutcome::Incomplete),
            Some(k) => {
                let rest = c.rx.skip(k as int);
                let name = frame_name(c.rx);
                let payload = frame_payload(c.rx);
                if name == set_led_name() {
                    (
                        CommState { rx: rest, tx: c.tx + return_frame(Seq::empty()), ready: c.ready },
                        apply_op(h, led_op(payload)),
                        ReadOutcome::Called,
                    )
                } else if name == reset_name() {
                    (CommState { rx: rest, tx: c.tx, ready: c.ready }, reset_state(h), ReadOutcome::Restart)
                } else {
                    (
                        CommState { rx: rest, tx: c.tx + return_frame(Seq::empty()), ready: c.ready },
                        h,
                        ReadOutcome::UnknownFunction,
                    )
                }
            },
        }
    } else if c.rx[0] == END {
        (CommState { rx: c.rx.drop_first(), tx: c.tx, ready: c.ready }, h, ReadOutcome::End)
    } else {
        (CommState { rx: Seq::empty(), tx: c.tx, ready: c.ready }, h, ReadOutcome::Discarded(c.rx[0]))
    }
}

/// A function-call frame built by `call_frame` is read back whole, once it
/// has arrived: its length, name and payload come out as they went in, and
/// what follows it is left unread.
pub proof fn lemma_call_frame_parses(name: Seq<u8>, payload: Seq<u8>, rest: Seq<u8>)
    requires
        name.len() <= MAX_NAME_LEN,
        payload.len() <= MAX_PAYLOAD_LEN,
    ensures
        ({
            let rx = call_frame(name, payload) + rest;
            &&& rx[0] == FUNCTION_HEADER
            &&& call_frame_len(rx) == Some(call_frame(name, payload).len())
            &&& frame_name(rx) == name
            &&& frame_payload(rx) == payload
            &&& rx.skip(call_frame(name, payload).len() as int) == rest
        }),
{
    let frame = call_frame(name, payload);
    let rx = frame + rest;
    let n = name.len() as int;
    let m = payload.len() as int;
    assert(frame.len() == n + m + 5);
    assert(rx[1] == n as u8);
    assert(name_len(rx) == n);
    assert(rx[n + 2] == (m % 256) as u8);
    assert(rx[n + 3] == (m / 256) as u8);
    assert(payload_len(rx) == m);
    assert(frame_name(rx) =~= name);
    assert(frame_payload(rx) =~= payload);
    assert(rx.skip(frame.len() as int) =~= rest);
}

/// A complete call of a function that the device does not know consumes its
/// frame, changes no hardware, and is still answered, by an empty return frame.
pub proof fn lemma_unknown_function_answered(
    c: CommState,
    h: HardwareState,
    name: Seq<u8>,
    payload: Seq<u8>,
    rest: Seq<u8>,
)
    requires
        name.len() <= MAX_NAME_LEN,
        payload.len() <= MAX_PAYLOAD_LEN,
        name != set_led_name(),
        name != reset_name(),
        c.rx == call_frame(name, payload) + rest,
    ensures
        ({
            let (c2, h2, r) = read_step(c, h);
            &&& c2.rx == rest
            &&& c2.tx == c.tx + seq![RETURN_HEADER]
            &&& c2.ready == c.ready
            &&& h2 == h
            &&& r == ReadOutcome::UnknownFunction
        }),
{
    lemma_call_frame_parses(name, payload, rest);
    assert(return_frame(Seq::empty()) =~= seq![RETURN_HEADER]);
}

/// An event byte that the device does not know is consumed together with
/// every byte that has arrived after it, and nothing is dispatched: no byte
/// is written and the hardware is untouched.
pub proof fn lemma_unknown_event_discarded(c: CommState, h: HardwareState, b: u8, rest: Seq<u8>)
    requires
        b != END,
        b != READY,
        b != FUNCTION_HEADER,
        c.rx == seq![b] + rest,
    ensures
        ({
            let (c2, h2, r) = read_step(c, h);
            &&& c.rx.len() == rest.len() + 1
            &&& c2.rx == Seq::<u8>::empty()
            &&& c2.tx == c.tx
            &&& c2.ready == c.ready
            &&& h2 == h
            &&& r == ReadOutcome::Discarded(b)
        }),
{
    assert(c.rx[0] == b);
}

/// Two ready handshakes in a row leave the channel ready after each of
/// them, whatever state it was in before.
pub proof fn lemma_handshake_idempotent(c: CommState, h: HardwareState, rest: Seq<u8>)
    requires
        c.rx == seq![READY, READY] + rest,
    ensures
        ({
            let (c1, h1, r1) = read_step(c, h);
            let (c2, h2, r2) = read_step(c1, h1);
            &&& c1.ready
            &&& c2.ready
            &&& r1 == ReadOutcome::Handshake
            &&& r2 == ReadOutcome::Handshake
            &&& c2.rx == rest
            &&& c2.tx == c.tx + seq![READY, READY]
            &&& h2 == h
        }),
{
    let (c1, h1, r1) = read_step(c, h);
    assert(c.rx[0] == READY);
    assert(c1.rx =~= seq![READY] + rest);
    assert(c1.rx[0] == READY);
    let (c2, h2, r2) = read_step(c1, h1);
    assert(c2.rx =~= rest);
    assert(c2.tx =~= c.tx + seq![READY, READY]);
}

/// Once the handshake has completed the channel stays ready: neither
/// reading an event nor making a call clears the flag.
pub proof fn lemma_ready_persists(c: CommState, h: HardwareState, name: Seq<u8>, payload: Seq<u8>)
    requires
        c.ready,
    ensures
        read_step(c, h).0.ready,
        call_state(c, name, payload).ready,
{
}

/// A complete `set_led` call sets the indicator as `set_led` does for its
/// payload, consumes exactly its frame, and is answered by an empty return
/// frame.
pub proof fn lemma_set_led_call_answered(
    c: CommState,
    h: HardwareState,
    payload: Seq<u8>,
    rest: Seq<u8>,
)
    requires
        payload.len() <= MAX_PAYLOAD_LEN,
        c.rx == call_frame(set_led_name(), payload) + rest,
    ensures
        ({
            let (c2, h2, r) = read_step(c, h);
            &&& c2.rx == rest
            &&& c2.tx == c.tx + seq![RETURN_HEADER]
            &&& c2.ready == c.ready
            &&& h2 == apply_op(h, led_op(payload))
            &&& r == ReadOutcome::Called
        }),
{
    reveal_strlit("set_led");
    vstd::string::is_ascii_spec_bytes("set_led");
    assert(vstd::string::is_ascii("set_led"));
    lemma_call_frame_parses(set_led_name(), payload, rest);
    assert(return_frame(Seq::empty()) =~= seq![RETURN_HEADER]);
}

impl SerialComm {
    /// A channel with nothing received or written, before the handshake.
    pub fn new() -> (r: SerialComm)
        ensures
            r@.rx == Seq::<u8>::empty(),
            r@.tx == Seq::<u8>::empty(),
            !r@.ready,
    {
        SerialComm { rx: Vec::new(), tx: Vec::new(), ready: false }
    }

    /// Whether the handshake has completed.
    pub fn is_ready(&self) -> (r: bool)
        ensures
            r == self@.ready,
    {
        self.ready
    }

    /// Takes bytes that the transport has received.
    pub fn receive(&mut self, bytes: &[u8])
        ensures
            final(self)@.rx == old(self)@.rx + bytes@,
            final(self)@.tx == old(self)@.tx,
            final(self)@.ready == old(self)@.ready,
    {
        append_bytes(&mut self.rx, bytes);
    }

    /// How many received bytes are not yet consumed.
    pub fn available(&self) -> (r: usize)
        ensures
            r == self@.rx.len(),
    {
        self.rx.len()
    }

    /// Hands out the bytes written for the transport, oldest first, and forgets them.
    pub fn take_output(&mut self) -> (r: Vec<u8>)
        ensures
            r@ == old(self)@.tx,
            final(self)@.rx == old(self)@.rx,
            final(self)@.tx == Seq::<u8>::empty(),
            final(self)@.ready == old(self)@.ready,
    {
        let mut taken: Vec<u8> = Vec::new();
        std::mem::swap(&mut taken, &mut self.tx);
        taken
    }

    /// Consumes the first `n` received bytes and returns them.
    fn read_n(&mut self, n: usize) -> (r: Vec<u8>)
        requires
            n <= old(self)@.rx.len(),
        ensures
            r@ == old(self)@.rx.take(n as int),
            final(self)@.rx == old(self)@.rx.skip(n as int),
            final(self)@.tx == old(self)@.tx,
            final(self)@.ready == old(self)@.ready,
    {
        let taken = copy_range(self.rx.as_slice(), 0, n);
        let rest = copy_range(self.rx.as_slice(), n, self.rx.len());
        self.rx = rest;
        taken
    }

    /// Answers a ready handshake, after which calls go out.
    pub fn ready(&mut self)
        ensures
            final(self)@.rx == old(self)@.rx,
            final(self)@.tx == old(self)@.tx.push(READY),
            final(self)@.ready,
    {
        self.tx.push(READY);
        self.ready = true;
    }

    /// Writes a function-return frame carrying `data`.
    fn return_event(&mut self, data: &[u8])
        ensures
            final(self)@.rx == old(self)@.rx,
            final(self)@.tx == old(self)@.tx + return_frame(data@),
            final(self)@.ready == old(self)@.ready,
    {
        self.tx.push(RETURN_HEADER);
        append_bytes(&mut self.tx, data);
        assert(self.tx@ =~= old(self)@.tx + return_frame(data@));
    }

    /// Calls `function` on the host with `data`. Before the handshake the
    /// call is dropped and nothing is written.
    pub fn call(&mut self, function: &str, data: &[u8])
        requires
            function.spec_bytes().len() <= MAX_NAME_LEN,
            data@.len() <= MAX_PAYLOAD_LEN,
        ensures
            final(self)@ == call_state(old(self)@, function.spec_bytes(), data@),
            !old(self)@.ready ==> final(self)@.tx == old(self)@.tx,
    {
        if self.ready {
            let frame = encode_call(function, data);
            append_bytes(&mut self.tx, frame.as_slice());
        }
    }

    /// Reads one event from the received bytes and acts on it; see
    /// `read_step` for each case.
    pub fn read(&mut self, hw: &mut Hardware) -> (r: ReadOutcome)
        ensures
            (final(self)@, final(hw)@, r) == read_step(old(self)@, old(hw)@),
    {
        let len = self.rx.len();
        if len == 0 {
            return ReadOutcome::Idle;
        }
        let event = self.rx[0];
        if event == READY {
            let _ = self.read_n(1);
            self.ready();
            assert(self@.rx =~= old(self)@.rx.drop_first());
            ReadOutcome::Handshake
        } else if event == FUNCTION_HEADER {
            if len < 2 {
                return ReadOutcome::Incomplete;
            }
            let n = self.rx[1] as usize;
            if len < n + 4 {
                return ReadOutcome::Incomplete;
            }
            let m = self.rx[n + 2] as usize + 256 * (self.rx[n + 3] as usize);
            if len < n + m + 5 {
                return ReadOutcome::Incomplete;
            }
            let frame = self.read_n(n + m + 5);
            let name = copy_range(frame.as_slice(), 2, 2 + n);
            let payload = copy_range(frame.as_slice(), n + 4, n + 4 + m);
            assert(name@ =~= frame_name(old(self)@.rx));
            assert(payload@ =~= frame_payload(old(self)@.rx));
            if bytes_eq(name.as_slice(), "set_led".as_bytes()) {
                let reply = set_led(hw, payload);
                self.return_event(reply.as_slice());
                ReadOutcome::Called
            } else if bytes_eq(name.as_slice(), "reset".as_bytes()) {
                reset(hw, payload);
                ReadOutcome::Restart
            } else {
                self.return_event(&[]);
                ReadOutcome::UnknownFunction
            }
        } else if event == END {
            let _ = self.read_n(1);
            assert(self@.rx =~= old(self)@.rx.drop_first());
            ReadOutcome::End
        } else {
            self.rx = Vec::new();
            ReadOutcome::Discarded(event)
        }
    }
}

/// Reports a fatal fault, such as a failed allocation, to the host as a
/// `panic` call carrying `report`; dropped before the handshake. The device
/// halts afterwards.
pub fn oom(comm: &mut SerialComm, report: &str)
    requires
        report.spec_bytes().len() <= MAX_PAYLOAD_LEN,
    ensures
        final(comm)@ == call_state(old(comm)@, "panic".spec_bytes(), report.spec_bytes()),
{
    proof {
        reveal_strlit("panic");
        vstd::string::is_ascii_spec_bytes("panic");
        assert(vstd::string::is_ascii("panic"));
    }
    comm.call("panic", report.as_bytes());
}

} // verus!
