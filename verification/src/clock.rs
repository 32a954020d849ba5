use crate::error::{ZFError, ZFResult};
use crate::time::{Duration, Timestamp, TimestampView};
use vstd::prelude::*;

verus! {

/// `uhlc::HLC`, the hybrid logical clock. It is held by one owner and
/// worked on through `&mut` only, so that what is said of its time before
/// and after a call is said of one course of events.
#[verifier::external_type_specification]
#[verifier::external_body]
pub struct ExHLC(uhlc::HLC);

/// The time of the latest timestamp that the clock has made or has been
/// advanced with; zero for a clock that has done neither.
pub uninterp spec fn hlc_time(hlc: uhlc::HLC) -> u64;

/// The identifier that the clock puts on its timestamps.
pub uninterp spec fn hlc_id(hlc: uhlc::HLC) -> Seq<u8>;

/// The longest identifier a clock can have, in bytes.
pub const MAX_ID_LEN: usize = 16;

/// `uhlc::HLC::default`: a clock with a fresh sixteen-byte identifier that
/// has not yet made a timestamp. (uhlc reads `UHLC_MAX_DELTA_MS` once, at
/// the first clock, and refuses to go on if that variable is set to something
/// that is no number.)
#[verifier::external_body]
fn hlc_default() -> (hlc: uhlc::HLC)
    ensures
        hlc_time(hlc) == 0,
        hlc_id(hlc).len() == 16,
{
    uhlc::HLC::default()
}

/// `uhlc::HLC::new_timestamp`: the timestamp is later than everything the
/// clock has made or taken in so far, carries the clock's identifier, and
/// becomes the clock's latest time. The clock adds one to its time when the
/// physical time has not moved on, so its time must not be the largest.
#[verifier::external_body]
fn hlc_new_timestamp(hlc: &mut uhlc::HLC) -> (ts: Timestamp)
    requires
        hlc_time(*old(hlc)) < u64::MAX,
    ensures
        hlc_time(*old(hlc)) < ts.time,
        hlc_time(*final(hlc)) == ts.time,
        hlc_id(*final(hlc)) == hlc_id(*old(hlc)),
        ts.id@ == hlc_id(*old(hlc)),
{
    let ts = hlc.new_timestamp();
    Timestamp { time: ts.get_time().as_u64(), id: ts.get_id().as_slice().to_vec() }
}

/// `uhlc::HLC::update_with_timestamp`: whether the clock took the timestamp
/// in. It refuses one that lies further ahead of the physical time than its
/// drift bound, and is then unchanged. Otherwise its time moves to the
/// physical time, to one past the timestamp, or one past its own time,
/// whichever is latest: never back, never before the timestamp, and short of
/// the largest time when both the timestamp and the clock were two short of it.
#[verifier::external_body]
fn hlc_update(hlc: &mut uhlc::HLC, ts: &Timestamp) -> (accepted: bool)
    requires
        ts.id@.len() <= 16,
        ts.time < u64::MAX - 1,
        hlc_time(*old(hlc)) < u64::MAX - 1,
    ensures
        hlc_id(*final(hlc)) == hlc_id(*old(hlc)),
        hlc_time(*old(hlc)) <= hlc_time(*final(hlc)),
        hlc_time(*final(hlc)) < u64::MAX,
        accepted ==> ts.time <= hlc_time(*final(hlc)),
        !accepted ==> hlc_time(*final(hlc)) == hlc_time(*old(hlc)),
{
    match uhlc::ID::try_from(ts.id.as_slice()) {
        Ok(id) => {
            hlc.update_with_timestamp(&uhlc::Timestamp::new(uhlc::NTP64(ts.time), id)).is_ok()
        },
        Err(_) => false,
    }
}

/// The span that a difference of two clock times stands for. The upper half
/// of the 64 bits is whole seconds, the lower half a binary fraction of a
/// second, which is read in nanoseconds, rounded down.
pub open spec fn span_of(time: u64) -> Duration {
    Duration {
        secs: time / 0x1_0000_0000,
        nanos: (((time % 0x1_0000_0000) * 1_000_000_000) / 0x1_0000_0000) as u32,
    }
}

/// The time that has passed from one timestamp to a later one; nothing when
/// the second is not later.
pub open spec fn elapsed_between(start: u64, end: u64) -> Duration {
    if start <= end {
        span_of((end - start) as u64)
    } else {
        Duration { secs: 0, nanos: 0 }
    }
}

/// The span that a difference of two clock times stands for.
pub fn span(time: u64) -> (d: Duration)
    ensures
        d == span_of(time),
        d.wf(),
{
    let secs: u64 = time / 0x1_0000_0000;
    let fraction: u64 = time % 0x1_0000_0000;
    assert(fraction * 1_000_000_000 <= 0xffff_ffff * 1_000_000_000) by (nonlinear_arith)
        requires
            fraction <= 0xffff_ffff,
    ;
    let nanos: u64 = (fraction * 1_000_000_000) / 0x1_0000_0000;
    Duration { secs, nanos: nanos as u32 }
}

/// The time that has passed from `start` to `end`.
pub fn elapsed(start: &Timestamp, end: &Timestamp) -> (d: Duration)
    ensures
        d == elapsed_between(start.time, end.time),
        d.wf(),
{
    if start.time <= end.time {
        span(end.time - start.time)
    } else {
        Duration { secs: 0, nanos: 0 }
    }
}

/// The hybrid logical clock of a runtime. Each timestamp it makes is later
/// than all it made before and than all it was advanced with.
pub struct Clock {
    hlc: uhlc::HLC,
    last: u64,
}

impl Clock {
    /// The clock's record of its own time agrees with the clock.
    pub closed spec fn wf(self) -> bool {
        hlc_time(self.hlc) == self.last && hlc_id(self.hlc).len() <= 16
    }

    /// The time of the latest timestamp made or taken in.
    pub closed spec fn time(self) -> u64 {
        self.last
    }

    /// The identifier that this clock puts on its timestamps.
    pub closed spec fn id(self) -> Seq<u8> {
        hlc_id(self.hlc)
    }

    /// A clock that stood at `self` has made the timestamp `ts` and stands
    /// at `after`: the timestamp is later than the time the clock stood at,
    /// carries the clock's identifier, and is the clock's time from now on.
    pub open spec fn stamped(self, ts: TimestampView, after: Clock) -> bool {
        &&& self.time() < ts.time
        &&& ts.id == self.id()
        &&& after.time() == ts.time
        &&& after.id() == self.id()
    }

    /// A clock that stood at `self` has been handed the timestamp
    /// `received`, has made the timestamp `now` for the moment of receipt,
    /// and stands at `after`. Where it took in what it was handed, `taken`
    /// says so, and `received` is earlier than `now`.
    pub open spec fn ticked(
        self,
        received: TimestampView,
        taken: bool,
        now: TimestampView,
        after: Clock,
    ) -> bool {
        &&& self.stamped(now, after)
        &&& taken ==> received.time < now.time
    }

    /// The clock `self` is `earlier` at the same or a later moment: the
    /// same clock, whose time has not gone back.
    pub open spec fn follows(self, earlier: Clock) -> bool {
        earlier.time() <= self.time() && self.id() == earlier.id()
    }

    /// A clock that has not yet made a timestamp, with a fresh identifier.
    ///
    /// The clock crate reads its drift bound from the environment variable
    /// `UHLC_MAX_DELTA_MS` when the first clock of a process is made, and
    /// panics there if that variable is set to something that is no number.
    /// Nothing in a program can rule that out, so it is no condition of this
    /// function; a process with the variable unset or set to a number is
    /// what the rest of this contract speaks of.
    pub fn new() -> (clock: Clock)
        ensures
            clock.wf(),
            clock.time() == 0,
    {
        Clock { hlc: hlc_default(), last: 0 }
    }

    /// The time of the latest timestamp made or taken in.
    pub fn last_time(&self) -> (t: u64)
        ensures
            t == self.time(),
    {
        self.last
    }

    /// Makes a timestamp that is later than all before it.
    ///
    /// A clock whose time has reached the largest value cannot go on, and
    /// says so with `InvalidState`.
    pub fn new_timestamp(&mut self) -> (r: ZFResult<Timestamp>)
        requires
            old(self).wf(),
        ensures
            final(self).wf(),
            final(self).id() == old(self).id(),
            old(self).time() == u64::MAX ==> r == Err::<Timestamp, ZFError>(ZFError::InvalidState)
                && final(self).time() == old(self).time(),
            old(self).time() < u64::MAX ==> {
                &&& r matches Ok(ts)
                &&& old(self).stamped(ts@, *final(self))
                &&& ts.id@.len() <= 16
            },
    {
        if self.last == u64::MAX {
            return Err(ZFError::InvalidState);
        }
        let ts = hlc_new_timestamp(&mut self.hlc);
        self.last = ts.time;
        Ok(ts)
    }

    /// Advances the clock with a timestamp that came in and makes a
    /// timestamp for the moment of receipt. The first component tells whether
    /// the clock took the incoming timestamp in; it does not when the
    /// timestamp lies beyond the clock's drift bound or is none that a clock
    /// can have made. When it did, the new timestamp is later than the
    /// incoming one.
    ///
    /// A clock whose time is within one of the largest value cannot go on,
    /// and says so with `InvalidState`.
    pub fn tick(&mut self, received: &Timestamp) -> (r: ZFResult<(bool, Timestamp)>)
        requires
            old(self).wf(),
        ensures
            final(self).wf(),
            final(self).id() == old(self).id(),
            old(self).time() >= u64::MAX - 1 ==> r == Err::<(bool, Timestamp), ZFError>(
                ZFError::InvalidState,
            ) && final(self).time() == old(self).time(),
            old(self).time() < u64::MAX - 1 ==> {
                &&& r matches Ok(got)
                &&& old(self).ticked(received@, got.0, got.1@, *final(self))
                &&& got.1.id@.len() <= 16
            },
    {
        if self.last >= u64::MAX - 1 {
            return Err(ZFError::InvalidState);
        }
        let accepted = if received.id.len() <= MAX_ID_LEN && received.time < u64::MAX - 1 {
            hlc_update(&mut self.hlc, received)
        } else {
            false
        };
        let now = hlc_new_timestamp(&mut self.hlc);
        self.last = now.time;
        Ok((accepted, now))
    }
}

/// What a node sends is later than all its clock has seen: a timestamp that
/// the clock makes lies after the time the clock stood at just before, and
/// so after every timestamp that the clock made or took in until then.
pub proof fn lemma_stamp_is_fresh(
    first: Clock,
    earlier: TimestampView,
    then: Clock,
    before: Clock,
    ts: TimestampView,
    after: Clock,
)
    requires
        first.stamped(earlier, then),
        before.follows(then),
        before.stamped(ts, after),
    ensures
        before.time() < ts.time,
        earlier.time < ts.time,
        earlier.before(ts),
        after.follows(first),
{
}

/// Once a node has taken a message in, its clock is past the message: the
/// timestamp of the receipt is later than the timestamp of the message, the
/// clock's time is later from then on, and so is every timestamp that the
/// clock makes afterwards.
pub proof fn lemma_receipt_is_later(
    first: Clock,
    received: TimestampView,
    now: TimestampView,
    then: Clock,
    before: Clock,
    ts: TimestampView,
    after: Clock,
)
    requires
        first.ticked(received, true, now, then),
        before.follows(then),
        before.stamped(ts, after),
    ensures
        received.before(now),
        received.time < then.time(),
        received.time < before.time(),
        received.time < after.time(),
        received.before(ts),
{
}

} // verus!
