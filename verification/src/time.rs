use vstd::prelude::*;

verus! {

/// A span of time, as whole seconds and the nanoseconds beyond them.
#[derive(Debug, Clone, Copy, PartialEq, Eq)]
pub struct Duration {
    pub secs: u64,
    pub nanos: u32,
}

impl Duration {
    /// The span in nanoseconds.
    pub open spec fn total(self) -> nat {
        (self.secs * 1_000_000_000 + self.nanos) as nat
    }

    /// The fraction of a second is below one second.
    pub open spec fn wf(self) -> bool {
        self.nanos < 1_000_000_000
    }

    /// The span of so many seconds and so many nanoseconds. Nanoseconds
    /// that make up whole seconds are carried over into the seconds, which
    /// must have room for them.
    pub fn new(secs: u64, nanos: u32) -> (r: Duration)
        requires
            secs + nanos / 1_000_000_000 <= u64::MAX,
        ensures
            r.secs == secs + nanos / 1_000_000_000,
            r.nanos == nanos % 1_000_000_000,
            r.total() == secs * 1_000_000_000 + nanos,
            r.wf(),
    {
        let carry: u32 = nanos / 1_000_000_000;
        let rest: u32 = nanos % 1_000_000_000;
        let whole: u64 = secs + carry as u64;
        assert((secs + carry) * 1_000_000_000 + rest == secs * 1_000_000_000 + nanos)
            by (nonlinear_arith)
            requires
                nanos == carry * 1_000_000_000 + rest,
        ;
        Duration { secs: whole, nanos: rest }
    }

    /// The span of so many seconds.
    pub fn from_secs(secs: u64) -> (r: Duration)
        ensures
            r.wf(),
            r.total() == secs * 1_000_000_000,
            r.secs == secs,
            r.nanos == 0,
    {
        Duration { secs, nanos: 0 }
    }

    /// The span of so many thousandths of a second.
    pub fn from_millis(millis: u64) -> (r: Duration)
        ensures
            r.wf(),
            r.total() == millis * 1_000_000,
            r.secs == millis / 1000,
            r.nanos == (millis % 1000) * 1_000_000,
    {
        let secs: u64 = millis / 1000;
        let rest: u64 = millis % 1000;
        let nanos: u32 = (rest as u32) * 1_000_000;
        Duration { secs, nanos }
    }

    /// The span in nanoseconds.
    pub fn as_nanos(&self) -> (r: u128)
        ensures
            r == self.total(),
    {
        (self.secs as u128) * 1_000_000_000 + (self.nanos as u128)
    }

    /// Whether this span is at least as long as the other.
    pub fn at_least(&self, other: &Duration) -> (r: bool)
        ensures
            r == (self.total() >= other.total()),
    {
        self.as_nanos() >= other.as_nanos()
    }
}

/// A hybrid-logical-clock timestamp: a 64-bit time, whose lowest bits count
/// the events of one instant, and the identifier of the clock that made it.
#[derive(Debug, PartialEq, Eq)]
pub struct Timestamp {
    pub time: u64,
    pub id: Vec<u8>,
}

/// What a timestamp stands for.
pub struct TimestampView {
    pub time: u64,
    pub id: Seq<u8>,
}

impl View for Timestamp {
    type V = TimestampView;

    open spec fn view(&self) -> TimestampView {
        TimestampView { time: self.time, id: self.id@ }
    }
}

/// Lexicographic order on byte strings: a proper prefix comes first.
pub open spec fn bytes_before(a: Seq<u8>, b: Seq<u8>) -> bool
    decreases a.len(),
{
    if b.len() == 0 {
        false
    } else if a.len() == 0 {
        true
    } else if a[0] != b[0] {
        a[0] < b[0]
    } else {
        bytes_before(a.drop_first(), b.drop_first())
    }
}

impl TimestampView {
    /// The order of timestamps: by time, then by the clock's identifier.
    pub open spec fn before(self, other: TimestampView) -> bool {
        self.time < other.time || (self.time == other.time && bytes_before(self.id, other.id))
    }
}

/// The order of byte strings is strict: nothing comes before itself.
pub proof fn lemma_bytes_before_irreflexive(a: Seq<u8>)
    ensures
        !bytes_before(a, a),
    decreases a.len(),
{
    if a.len() > 0 {
        lemma_bytes_before_irreflexive(a.drop_first());
    }
}

/// The order of byte strings is transitive.
pub proof fn lemma_bytes_before_transitive(a: Seq<u8>, b: Seq<u8>, c: Seq<u8>)
    requires
        bytes_before(a, b),
        bytes_before(b, c),
    ensures
        bytes_before(a, c),
    decreases a.len(),
{
    if a.len() > 0 && a[0] == b[0] && b[0] == c[0] {
        lemma_bytes_before_transitive(a.drop_first(), b.drop_first(), c.drop_first());
    }
}

/// The order of byte strings is total: of two different ones, one comes
/// before the other.
pub proof fn lemma_bytes_before_total(a: Seq<u8>, b: Seq<u8>)
    ensures
        a == b || bytes_before(a, b) || bytes_before(b, a),
    decreases a.len(),
{
    if a.len() == 0 || b.len() == 0 {
        if a.len() == 0 && b.len() == 0 {
            assert(a =~= b);
        }
    } else if a[0] == b[0] {
        lemma_bytes_before_total(a.drop_first(), b.drop_first());
        if a.drop_first() == b.drop_first() {
            assert(a =~= seq![a[0]] + a.drop_first());
            assert(b =~= seq![b[0]] + b.drop_first());
        }
    }
}

/// Timestamps are totally ordered: the order is strict and transitive, and
/// of two different timestamps one comes before the other.
pub proof fn lemma_timestamps_totally_ordered(a: TimestampView, b: TimestampView, c: TimestampView)
    ensures
        !a.before(a),
        a.before(b) && b.before(c) ==> a.before(c),
        a == b || a.before(b) || b.before(a),
        !(a.before(b) && b.before(a)),
{
    lemma_bytes_before_irreflexive(a.id);
    lemma_bytes_before_total(a.id, b.id);
    if a.before(b) && b.before(c) {
        if a.time == b.time && b.time == c.time {
            lemma_bytes_before_transitive(a.id, b.id, c.id);
        }
    }
    if a.before(b) && b.before(a) {
        lemma_bytes_before_transitive(a.id, b.id, a.id);
    }
}

impl Timestamp {
    /// Whether this timestamp comes before the other: it is of an earlier
    /// time, or of the same time and of a clock whose identifier comes first.
    pub fn precedes(&self, other: &Timestamp) -> (r: bool)
        ensures
            r == self@.before(other@),
    {
        if self.time != other.time {
            return self.time < other.time;
        }
        let mut i: usize = 0;
        assert(self.id@.skip(0) =~= self.id@);
        assert(other.id@.skip(0) =~= other.id@);
        while i < self.id.len() && i < other.id.len()
            invariant
                i <= self.id.len(),
                i <= other.id.len(),
                self.time == other.time,
                bytes_before(self.id@, other.id@) == bytes_before(
                    self.id@.skip(i as int),
                    other.id@.skip(i as int),
                ),
            decreases self.id.len() - i,
        {
            proof {
                assert(self.id@.skip(i as int)[0] == self.id@[i as int]);
                assert(other.id@.skip(i as int)[0] == other.id@[i as int]);
                assert(self.id@.skip(i as int).drop_first() =~= self.id@.skip(i + 1));
                assert(other.id@.skip(i as int).drop_first() =~= other.id@.skip(i + 1));
            }
            if self.id[i] != other.id[i] {
                return self.id[i] < other.id[i];
            }
            i += 1;
        }
        i < other.id.len()
    }
}

impl Clone for Timestamp {
    fn clone(&self) -> (r: Self)
        ensures
            r@ == self@,
    {
        let id = self.id.clone();
        assert(id@ =~= self.id@);
        Timestamp { time: self.time, id }
    }
}

} // verus!
