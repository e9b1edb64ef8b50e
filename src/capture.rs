//! Per-device capture decisions and the fan-in of device events into the
//! display buffer. The blocking reads and the channel live with the caller;
//! here are the choices made after each read and what the consumer does
//! with the arrivals.

use vstd::prelude::*;
use crate::keypress::{after_add, process_input_event, BufferState, KeyBuffer, RawEvent};
use crate::keys::{customized, key_debug_name_of, lower_of, without_key_prefix, EV_KEY};

verus! {

/// Consecutive hard read errors after which a worker gives up on its device.
pub const MAX_CONSECUTIVE_ERRORS: u32 = 10;

/// What one read attempt on a device gave.
#[derive(Debug)]
pub enum ReadOutcome {
    /// A batch of raw events, in capture order.
    Events(Vec<RawEvent>),
    /// No data yet.
    WouldBlock,
    /// The read was interrupted and may be retried at once.
    Interrupted,
    /// A hard I/O error.
    Failed,
}

/// What a worker does next.
#[derive(Debug)]
pub enum WorkerAction {
    /// Send these key events to the aggregator, in order.
    Forward(Vec<RawEvent>),
    /// Sleep for a short pause, then read again.
    Pause,
    /// Read again at once.
    Retry,
    /// Leave the loop; the device is given up.
    Stop,
}

/// The decision state of one device's capture worker.
pub struct CaptureWorker {
    consecutive_errors: u32,
    stopped: bool,
}

/// Is the event a key-type event?
pub open spec fn is_key_event(e: RawEvent) -> bool {
    e.kind == EV_KEY
}

/// The key-type events of a batch, in order.
pub open spec fn key_events_of(s: Seq<RawEvent>) -> Seq<RawEvent>
    decreases s.len(),
{
    if s.len() == 0 {
        s
    } else if is_key_event(s.last()) {
        key_events_of(s.drop_last()).push(s.last())
    } else {
        key_events_of(s.drop_last())
    }
}

/// The key-type events of a batch, in order.
pub fn key_events(batch: &Vec<RawEvent>) -> (r: Vec<RawEvent>)
    ensures
        r@ == key_events_of(batch@),
{
    let mut r: Vec<RawEvent> = Vec::new();
    let mut i: usize = 0;
    while i < batch.len()
        invariant
            i <= batch@.len(),
            r@ == key_events_of(batch@.subrange(0, i as int)),
        decreases batch@.len() - i,
    {
        let ghost pre = batch@.subrange(0, i + 1);
        assert(pre.drop_last() =~= batch@.subrange(0, i as int));
        let e = batch[i];
        if e.kind == EV_KEY {
            r.push(e);
        }
        i = i + 1;
    }
    assert(batch@.subrange(0, batch@.len() as int) =~= batch@);
    r
}

impl CaptureWorker {
    pub closed spec fn errors(&self) -> nat {
        self.consecutive_errors as nat
    }

    pub closed spec fn has_stopped(&self) -> bool {
        self.stopped
    }

    /// A worker that has seen no error.
    pub fn new() -> (r: Self)
        ensures
            r.errors() == 0,
            !r.has_stopped(),
    {
        CaptureWorker { consecutive_errors: 0, stopped: false }
    }

    /// Has the worker given up?
    pub fn is_stopped(&self) -> (r: bool)
        ensures
            r == self.has_stopped(),
    {
        self.stopped
    }

    /// Consecutive hard errors seen so far.
    pub fn consecutive_errors(&self) -> (r: u32)
        ensures
            r == self.errors(),
    {
        self.consecutive_errors
    }

    /// The decision after one read. Cancellation or an earlier stop ends the
    /// worker; a batch is forwarded (key events only) and clears the error
    /// run; "no data yet" pauses and an interruption retries, neither
    /// counting as an error; a hard error pauses, until the run of hard
    /// errors reaches the budget and the worker stops.
    pub fn step(&mut self, cancelled: bool, outcome: ReadOutcome) -> (r: WorkerAction)
        ensures
            (old(self).has_stopped() || cancelled) ==> (r is Stop && final(self).has_stopped()
                && final(self).errors() == old(self).errors()),
            !(old(self).has_stopped() || cancelled) ==> match outcome {
                ReadOutcome::Events(b) => {
                    &&& r matches WorkerAction::Forward(v) && v@ == key_events_of(b@)
                    &&& final(self).errors() == 0
                    &&& !final(self).has_stopped()
                },
                ReadOutcome::WouldBlock => {
                    &&& r is Pause
                    &&& final(self).errors() == old(self).errors()
                    &&& !final(self).has_stopped()
                },
                ReadOutcome::Interrupted => {
                    &&& r is Retry
                    &&& final(self).errors() == old(self).errors()
                    &&& !final(self).has_stopped()
                },
                ReadOutcome::Failed => {
                    &&& final(self).errors() == if old(self).errors() < MAX_CONSECUTIVE_ERRORS {
                        old(self).errors() + 1
                    } else {
                        old(self).errors()
                    }
                    &&& (final(self).errors() >= MAX_CONSECUTIVE_ERRORS) == (r is Stop)
                    &&& final(self).has_stopped() == (r is Stop)
                    &&& !(r is Stop) ==> r is Pause
                },
            },
    {
        if self.stopped || cancelled {
            self.stopped = true;
            return WorkerAction::Stop;
        }
        match outcome {
            ReadOutcome::Events(batch) => {
                self.consecutive_errors = 0;
                WorkerAction::Forward(key_events(&batch))
            },
            ReadOutcome::WouldBlock => WorkerAction::Pause,
            ReadOutcome::Interrupted => WorkerAction::Retry,
            ReadOutcome::Failed => {
                if self.consecutive_errors < MAX_CONSECUTIVE_ERRORS {
                    self.consecutive_errors = self.consecutive_errors + 1;
                }
                if self.consecutive_errors >= MAX_CONSECUTIVE_ERRORS {
                    self.stopped = true;
                    WorkerAction::Stop
                } else {
                    WorkerAction::Pause
                }
            },
        }
    }

    /// The aggregator's receiver is gone: shutdown is in progress, so the
    /// worker stops quietly.
    pub fn channel_closed(&mut self) -> (r: WorkerAction)
        ensures
            r is Stop,
            final(self).has_stopped(),
            final(self).errors() == old(self).errors(),
    {
        self.stopped = true;
        WorkerAction::Stop
    }
}

/// A raw event together with the index of the device that produced it.
#[derive(Clone, Copy, Debug, PartialEq, Eq, Structural)]
pub struct DeviceEvent {
    pub device: usize,
    pub event: RawEvent,
}

/// Is the raw event a key press that the normalizer turns into a key press?
pub open spec fn is_press_event(e: RawEvent) -> bool {
    e.kind == EV_KEY && e.value == 1
}

/// The (device, key code) pairs of the key presses in an arrival stream, in order.
pub open spec fn presses(stream: Seq<DeviceEvent>) -> Seq<(usize, u16)>
    decreases stream.len(),
{
    if stream.len() == 0 {
        Seq::empty()
    } else if is_press_event(stream.last().event) {
        presses(stream.drop_last()).push((stream.last().device, stream.last().event.code))
    } else {
        presses(stream.drop_last())
    }
}

/// The events of one device, in arrival order.
pub open spec fn from_device(stream: Seq<DeviceEvent>, d: usize) -> Seq<DeviceEvent>
    decreases stream.len(),
{
    if stream.len() == 0 {
        stream
    } else if stream.last().device == d {
        from_device(stream.drop_last(), d).push(stream.last())
    } else {
        from_device(stream.drop_last(), d)
    }
}

/// The events of every device but one, in arrival order.
pub open spec fn without_device(stream: Seq<DeviceEvent>, e: usize) -> Seq<DeviceEvent>
    decreases stream.len(),
{
    if stream.len() == 0 {
        stream
    } else if stream.last().device != e {
        without_device(stream.drop_last(), e).push(stream.last())
    } else {
        without_device(stream.drop_last(), e)
    }
}

/// The key codes that one device contributed to a run of presses, in order.
pub open spec fn codes_of(p: Seq<(usize, u16)>, d: usize) -> Seq<u16>
    decreases p.len(),
{
    if p.len() == 0 {
        Seq::empty()
    } else if p.last().0 == d {
        codes_of(p.drop_last(), d).push(p.last().1)
    } else {
        codes_of(p.drop_last(), d)
    }
}

proof fn lemma_presses_push(s: Seq<DeviceEvent>, x: DeviceEvent)
    ensures
        presses(s.push(x)) == if is_press_event(x.event) {
            presses(s).push((x.device, x.event.code))
        } else {
            presses(s)
        },
{
    assert(s.push(x).drop_last() =~= s);
}

proof fn lemma_codes_push(p: Seq<(usize, u16)>, t: (usize, u16), d: usize)
    ensures
        codes_of(p.push(t), d) == if t.0 == d { codes_of(p, d).push(t.1) } else { codes_of(p, d) },
{
    assert(p.push(t).drop_last() =~= p);
}

/// Whatever the interleaving with other devices, the key codes that device
/// `d` contributes to the normalized stream are its own presses, in the order
/// in which it emitted them.
pub proof fn lemma_per_device_order(stream: Seq<DeviceEvent>, d: usize)
    ensures
        codes_of(presses(stream), d) == codes_of(presses(from_device(stream, d)), d),
    decreases stream.len(),
{
    if stream.len() > 0 {
        let s0 = stream.drop_last();
        let x = stream.last();
        lemma_per_device_order(s0, d);
        assert(s0.push(x) =~= stream);
        lemma_presses_push(s0, x);
        lemma_codes_push(presses(s0), (x.device, x.event.code), d);
        if x.device == d {
            lemma_presses_push(from_device(s0, d), x);
            lemma_codes_push(presses(from_device(s0, d)), (x.device, x.event.code), d);
        }
    }
}

/// Dropping every event of another device (one that failed, or never sent
/// anything) leaves what device `d` contributes unchanged.
pub proof fn lemma_device_isolation(stream: Seq<DeviceEvent>, d: usize, e: usize)
    requires
        d != e,
    ensures
        codes_of(presses(stream), d) == codes_of(presses(without_device(stream, e)), d),
    decreases stream.len(),
{
    if stream.len() > 0 {
        let s0 = stream.drop_last();
        let x = stream.last();
        lemma_device_isolation(s0, d, e);
        assert(s0.push(x) =~= stream);
        lemma_presses_push(s0, x);
        lemma_codes_push(presses(s0), (x.device, x.event.code), d);
        if x.device != e {
            lemma_presses_push(without_device(s0, e), x);
            lemma_codes_push(presses(without_device(s0, e)), (x.device, x.event.code), d);
        }
    }
}

/// The buffer after the consumer has handled an arrival stream at time `now`:
/// each key press, normalized, is added in arrival order; other events leave
/// the buffer as it is.
pub open spec fn fed(s: BufferState, e: Seq<DeviceEvent>, now: u64) -> BufferState
    decreases e.len(),
{
    if e.len() == 0 {
        s
    } else {
        let p = fed(s, e.drop_last(), now);
        let x = e.last().event;
        if is_press_event(x) {
            let name = without_key_prefix(key_debug_name_of(x.code));
            after_add(p, x.code, name, customized(name, lower_of(name)), now)
        } else {
            p
        }
    }
}

/// Hands the events that arrived since the last tick to the buffer, in arrival order.
pub fn feed_events(buffer: &mut KeyBuffer, events: &Vec<DeviceEvent>, now: u64)
    requires
        old(buffer).wf(),
    ensures
        final(buffer).wf(),
        final(buffer)@ == fed(old(buffer)@, events@, now),
{
    let ghost s0 = buffer@;
    let mut i: usize = 0;
    while i < events.len()
        invariant
            i <= events@.len(),
            buffer.wf(),
            buffer@ == fed(s0, events@.subrange(0, i as int), now),
        decreases events@.len() - i,
    {
        let ghost pre = events@.subrange(0, i + 1);
        assert(pre.drop_last() =~= events@.subrange(0, i as int));
        if let Some(kp) = process_input_event(events[i].event, now) {
            buffer.add_keypress(kp);
        }
        i = i + 1;
    }
    assert(events@.subrange(0, events@.len() as int) =~= events@);
}

} // verus!
