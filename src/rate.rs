//! The outbound rate limiter: a token bucket that refills in whole ticks.
//! Time is passed in, in milliseconds, so the bucket is a plain value.
use vstd::prelude::*;

use vstd::arithmetic::div_mod::{lemma_fundamental_div_mod, lemma_fundamental_div_mod_converse};

verus! {

/// A preset for what the server allows.
#[derive(Debug, Clone, Copy, PartialEq, Eq, Structural)]
pub enum RateClass {
    /// 20 messages per 30 seconds.
    Regular,
    /// 100 messages per 30 seconds.
    Moderator,
    /// 50 messages per 30 seconds.
    Known,
    /// 7500 messages per 30 seconds.
    Verified,
}

/// The length of a preset's window, in milliseconds.
pub const RATE_PERIOD_MS: u64 = 30000;

/// How many messages a preset allows per window.
pub open spec fn class_capacity(c: RateClass) -> nat {
    match c {
        RateClass::Regular => 20,
        RateClass::Moderator => 100,
        RateClass::Known => 50,
        RateClass::Verified => 7500,
    }
}

impl RateClass {
    /// How many messages this preset allows per window.
    pub fn capacity(self) -> (r: u64)
        ensures
            r == class_capacity(self),
    {
        match self {
            RateClass::Regular => 20,
            RateClass::Moderator => 100,
            RateClass::Known => 50,
            RateClass::Verified => 7500,
        }
    }
}

/// A bucket's state: `tokens` of `capacity` are left; every `period`
/// milliseconds after `last` adds `refill` tokens.
pub struct Bucket {
    pub capacity: nat,
    pub tokens: nat,
    pub period: nat,
    pub refill: nat,
    pub last: nat,
}

pub open spec fn bucket_ok(b: Bucket) -> bool {
    b.tokens <= b.capacity && b.period > 0
}

/// The bucket at `now`, after the refill ticks since `last`.
pub open spec fn refilled(b: Bucket, now: nat) -> Bucket {
    if b.period > 0 && now >= b.last + b.period {
        let k = (now - b.last) as int / b.period as int;
        let t = b.tokens + k * b.refill;
        Bucket {
            tokens: if t > b.capacity { b.capacity } else { t as nat },
            last: (b.last + k * b.period) as nat,
            ..b
        }
    } else {
        b
    }
}

/// Taking `n` tokens at `now`: the new bucket, and whether they were there.
pub open spec fn after_take(b: Bucket, n: nat, now: nat) -> (Bucket, bool) {
    let r = refilled(b, now);
    if r.tokens >= n {
        (Bucket { tokens: (r.tokens - n) as nat, ..r }, true)
    } else {
        (r, false)
    }
}

/// When the next refill tick comes after taking at `now` (capped at the
/// largest time).
pub open spec fn next_tick(b: Bucket, now: nat) -> nat {
    let r = refilled(b, now);
    if r.last + r.period > u64::MAX {
        u64::MAX as nat
    } else {
        r.last + r.period
    }
}

/// A token bucket.
#[derive(Debug, Clone, Copy)]
pub struct RateLimit {
    capacity: u64,
    tokens: u64,
    period: u64,
    refill: u64,
    last: u64,
}

impl View for RateLimit {
    type V = Bucket;

    closed spec fn view(&self) -> Bucket {
        Bucket {
            capacity: self.capacity as nat,
            tokens: self.tokens as nat,
            period: self.period as nat,
            refill: self.refill as nat,
            last: self.last as nat,
        }
    }
}

impl RateLimit {
    #[verifier::type_invariant]
    spec fn inv(&self) -> bool {
        self.tokens <= self.capacity && self.period > 0
    }

    /// A full bucket of `capacity` tokens that gains `refill` tokens every
    /// `period_ms` milliseconds from `now`.
    pub fn new(capacity: u64, period_ms: u64, refill: u64, now: u64) -> (r: RateLimit)
        requires
            period_ms > 0,
        ensures
            r@ == (Bucket { capacity: capacity as nat, tokens: capacity as nat, period: period_ms as nat, refill: refill as nat, last: now as nat }),
    {
        RateLimit { capacity, tokens: capacity, period: period_ms, refill, last: now }
    }

    /// A full bucket for a preset: its capacity, refilled whole every 30
    /// seconds.
    pub fn from_class(class: RateClass, now: u64) -> (r: RateLimit)
        ensures
            r@ == (Bucket { capacity: class_capacity(class), tokens: class_capacity(class), period: RATE_PERIOD_MS as nat, refill: class_capacity(class), last: now as nat }),
    {
        let c = class.capacity();
        RateLimit::new(c, RATE_PERIOD_MS, c, now)
    }

    /// The tokens left (before any refill that is due).
    pub fn tokens(&self) -> (r: u64)
        ensures
            r == self@.tokens,
    {
        self.tokens
    }

    /// The bucket's capacity.
    pub fn capacity(&self) -> (r: u64)
        ensures
            r == self@.capacity,
    {
        self.capacity
    }

    /// Applies the refill ticks due at `now`.
    fn refill_at(&mut self, now: u64)
        ensures
            final(self)@ == refilled(old(self)@, now as nat),
    {
        proof {
            use_type_invariant(&*self);
        }
        if now >= self.last && now - self.last >= self.period {
            let elapsed = now - self.last;
            let k = elapsed / self.period;
            proof {
                lemma_fundamental_div_mod(elapsed as int, self.period as int);
                assert(k * self.period <= elapsed) by (nonlinear_arith)
                    requires
                        elapsed == self.period * k + elapsed % self.period,
                        elapsed % self.period >= 0,
                ;
            }
            let room = self.capacity - self.tokens;
            let tokens = if self.refill > 0 && k > room / self.refill {
                proof {
                    let q = room / self.refill;
                    lemma_fundamental_div_mod(room as int, self.refill as int);
                    assert(k * self.refill > room) by (nonlinear_arith)
                        requires
                            k >= q + 1,
                            room == self.refill * q + room % self.refill,
                            room % self.refill < self.refill,
                            self.refill > 0,
                    ;
                }
                self.capacity
            } else {
                proof {
                    if self.refill > 0 {
                        let q = room / self.refill;
                        lemma_fundamental_div_mod(room as int, self.refill as int);
                        assert(k * self.refill <= room) by (nonlinear_arith)
                            requires
                                k <= q,
                                room == self.refill * q + room % self.refill,
                                room % self.refill >= 0,
                                self.refill > 0,
                        ;
                    } else {
                        assert(k * self.refill == 0) by (nonlinear_arith)
                            requires
                                self.refill == 0,
                        ;
                    }
                }
                self.tokens + k * self.refill
            };
            self.tokens = tokens;
            self.last = self.last + k * self.period;
        }
    }

    /// Takes `n` tokens at `now`, after any refill that is due. On success
    /// the tokens are consumed; otherwise nothing is, and the error is the
    /// time of the next refill tick, when to try again.
    pub fn take(&mut self, n: u64, now: u64) -> (r: Result<(), u64>)
        ensures
            final(self)@ == after_take(old(self)@, n as nat, now as nat).0,
            r is Ok <==> after_take(old(self)@, n as nat, now as nat).1,
            r matches Err(t) ==> t == next_tick(old(self)@, now as nat),
    {
        self.refill_at(now);
        proof {
            use_type_invariant(&*self);
        }
        if self.tokens >= n {
            self.tokens = self.tokens - n;
            Ok(())
        } else {
            let t = if self.last > u64::MAX - self.period { u64::MAX } else { self.last + self.period };
            Err(t)
        }
    }
}

/// Single-token takes at each of `times` in turn: the final bucket and how
/// many of them succeeded.
pub open spec fn run_takes(b: Bucket, times: Seq<nat>) -> (Bucket, nat)
    decreases times.len(),
{
    if times.len() == 0 {
        (b, 0)
    } else {
        let (b1, ok) = after_take(b, 1, times[0]);
        let (b2, c) = run_takes(b1, times.drop_first());
        (b2, c + if ok { 1nat } else { 0nat })
    }
}

proof fn lemma_run_no_refill(b: Bucket, times: Seq<nat>)
    requires
        bucket_ok(b),
        forall|i: int| 0 <= i < times.len() ==> #[trigger] times[i] < b.last + b.period,
    ensures
        run_takes(b, times).1 <= b.tokens,
    decreases times.len(),
{
    if times.len() > 0 {
        let (b1, ok) = after_take(b, 1, times[0]);
        assert(refilled(b, times[0]) == b);
        let rest = times.drop_first();
        assert forall|i: int| 0 <= i < rest.len() implies #[trigger] rest[i] < b1.last + b1.period by {
            assert(rest[i] == times[i + 1]);
        }
        lemma_run_no_refill(b1, rest);
    }
}

/// Within one refill window (from a refill tick to the next), at most
/// `capacity` single-token takes succeed, whatever the order of the times.
pub proof fn lemma_window_capacity(b: Bucket, times: Seq<nat>, j: nat)
    requires
        bucket_ok(b),
        forall|i: int| 0 <= i < times.len() ==> b.last + j * b.period <= #[trigger] times[i] && times[i] < b.last + (j + 1) * b.period,
    ensures
        run_takes(b, times).1 <= b.capacity,
{
    if times.len() > 0 {
        let t0 = times[0];
        let w = b.last + j * b.period;
        assert((j + 1) * b.period == j * b.period + b.period) by (nonlinear_arith);
        let r = refilled(b, t0);
        if j == 0 {
            assert(j * b.period == 0);
            assert(r == b);
        } else {
            let x = (t0 - b.last) as int;
            assert(x == j * b.period + (t0 - w));
            lemma_fundamental_div_mod_converse(x, b.period as int, j as int, (t0 - w) as int);
            assert(t0 >= b.last + b.period) by (nonlinear_arith)
                requires
                    j >= 1,
                    t0 >= b.last + j * b.period,
                    b.period > 0,
            ;
            assert(r.last == w);
        }
        let (b1, ok) = after_take(b, 1, t0);
        assert(b1.last == w && b1.period == b.period && b1.tokens + (if ok { 1nat } else { 0nat }) <= b.capacity);
        let rest = times.drop_first();
        assert forall|i: int| 0 <= i < rest.len() implies #[trigger] rest[i] < b1.last + b1.period by {
            assert(rest[i] == times[i + 1]);
        }
        lemma_run_no_refill(b1, rest);
    }
}

/// Outbound lines waiting for tokens, sent first in, first out.
pub struct Pacer {
    limiter: RateLimit,
    queue: Vec<String>,
}

impl Pacer {
    /// The bucket.
    pub closed spec fn bucket(&self) -> Bucket {
        self.limiter@
    }

    /// The lines waiting, oldest first.
    pub closed spec fn waiting(&self) -> Seq<Seq<char>> {
        self.queue@.map_values(|l: String| l@)
    }

    /// A pacer over `limiter`, with nothing waiting.
    pub fn new(limiter: RateLimit) -> (r: Pacer)
        ensures
            r.bucket() == limiter@,
            r.waiting() == Seq::<Seq<char>>::empty(),
    {
        let r = Pacer { limiter, queue: Vec::new() };
        assert(r.waiting() =~= Seq::<Seq<char>>::empty());
        r
    }

    /// Queues `line` behind those already waiting.
    pub fn push(&mut self, line: String)
        ensures
            final(self).waiting() == old(self).waiting().push(line@),
            final(self).bucket() == old(self).bucket(),
    {
        self.queue.push(line);
        assert(self.waiting() =~= old(self).waiting().push(line@));
    }

    /// Whether nothing is waiting.
    pub fn is_idle(&self) -> (r: bool)
        ensures
            r == (self.waiting().len() == 0),
    {
        self.queue.len() == 0
    }

    /// At `now`, the oldest waiting line if a token is there for it (the
    /// token is taken); otherwise the time of the next refill tick, or
    /// `None` when nothing waits. No line is dropped or overtaken.
    pub fn poll(&mut self, now: u64) -> (r: Result<String, Option<u64>>)
        ensures
            old(self).waiting().len() == 0 ==> r == Err::<String, Option<u64>>(None) && final(self).waiting() == old(self).waiting()
                && final(self).bucket() == old(self).bucket(),
            old(self).waiting().len() > 0 ==> final(self).bucket() == after_take(old(self).bucket(), 1, now as nat).0,
            old(self).waiting().len() > 0 && after_take(old(self).bucket(), 1, now as nat).1 ==> (r matches Ok(line)
                && line@ == old(self).waiting()[0] && final(self).waiting() == old(self).waiting().drop_first()),
            old(self).waiting().len() > 0 && !after_take(old(self).bucket(), 1, now as nat).1 ==> (r == Err::<String, Option<u64>>(Some(next_tick(old(self).bucket(), now as nat) as u64))
                && final(self).waiting() == old(self).waiting()),
    {
        if self.queue.len() == 0 {
            return Err(None);
        }
        match self.limiter.take(1, now) {
            Ok(()) => {
                let ghost before = self.queue@;
                let line = self.queue.remove(0);
                assert(self.waiting() =~= old(self).waiting().drop_first());
                Ok(line)
            },
            Err(t) => Err(Some(t)),
        }
    }
}

} // verus!
