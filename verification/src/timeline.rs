//! Per-stream mapping of the wrapping 32-bit RTP clock onto a 64-bit
//! logical clock that never decreases.

use vstd::prelude::*;

verus! {

use crate::Timestamp;

/// Why the timeline refused a timestamp.
#[derive(Clone, Copy, PartialEq, Eq, Structural, Debug)]
pub enum TimelineError {
    /// Advancing would push the 64-bit logical clock past `u64::MAX`.
    Overflow { rtp_timestamp: u32 },
    /// A sender report referenced a time before the logical clock's zero.
    BeforeStart { rtp_timestamp: u32 },
}

/// Expands a stream's 32-bit RTP timestamps into 64-bit logical timestamps
/// by accumulating the unsigned 32-bit wraparound distance between
/// consecutive observations.
#[derive(Clone, Copy, PartialEq, Eq, Structural, Debug)]
pub struct Timeline {
    /// The last 32-bit RTP timestamp observed, once one has been.
    pub latest: Option<u32>,
    /// The accumulated 64-bit logical timestamp of `latest`.
    pub timestamp: u64,
    /// The stream's RTP clock rate in Hz.
    pub clock_rate: u32,
    /// Policy for the first observation: when set, the logical clock is
    /// zero-referenced at this RTP timestamp rather than at zero.
    pub start: Option<u32>,
}

/// The unsigned 32-bit wraparound distance from `from` to `to`.
pub open spec fn wrap_delta(from: u32, to: u32) -> int {
    (to - from) % 0x1_0000_0000
}

/// The signed interpretation of the wraparound distance: distances of
/// half the clock space or more count as travelling backwards.
pub open spec fn signed_wrap_delta(from: u32, to: u32) -> int {
    if wrap_delta(from, to) >= 0x8000_0000 {
        wrap_delta(from, to) - 0x1_0000_0000
    } else {
        wrap_delta(from, to)
    }
}

impl Timeline {
    /// The logical value `advance_to(t)` would assign, as an unbounded
    /// integer: the first observation latches, later ones add the unsigned
    /// wraparound distance from the previous observation.
    pub open spec fn advance_target(self, t: u32) -> int {
        match self.latest {
            None => match self.start {
                Some(s) => wrap_delta(s, t),
                None => t as int,
            },
            Some(l) => self.timestamp + wrap_delta(l, t),
        }
    }

    /// The logical value `place(t)` computes, as an unbounded integer:
    /// like [`Self::advance_target`] but with the distance read signed, so a
    /// sender report may reference a moment shortly in the past.
    pub open spec fn place_target(self, t: u32) -> int {
        match self.latest {
            None => match self.start {
                Some(s) => wrap_delta(s, t),
                None => t as int,
            },
            Some(l) => self.timestamp + signed_wrap_delta(l, t),
        }
    }

    /// A fresh timeline: nothing observed, logical clock at zero.
    pub fn new(clock_rate: u32, start: Option<u32>) -> (r: Timeline)
        ensures
            r == (Timeline { latest: None, timestamp: 0, clock_rate, start }),
    {
        Timeline { latest: None, timestamp: 0, clock_rate, start }
    }

    /// Advances the logical clock to the 32-bit RTP timestamp `t` and
    /// returns its logical timestamp. Fails only when the 64-bit clock
    /// would overflow; the state is then unchanged.
    pub fn advance_to(&mut self, t: u32) -> (r: Result<Timestamp, TimelineError>)
        ensures
            match r {
                Ok(ts) => {
                    &&& old(self).advance_target(t) <= u64::MAX
                    &&& ts == (Timestamp {
                        timestamp: old(self).advance_target(t) as u64,
                        clock_rate: old(self).clock_rate,
                    })
                    &&& *final(self) == (Timeline {
                        latest: Some(t),
                        timestamp: old(self).advance_target(t) as u64,
                        ..*old(self)
                    })
                },
                Err(e) => {
                    &&& old(self).advance_target(t) > u64::MAX
                    &&& e == (TimelineError::Overflow { rtp_timestamp: t })
                    &&& *final(self) == *old(self)
                },
            },
            old(self).latest is Some ==> final(self).timestamp >= old(self).timestamp,
    {
        match self.latest {
            None => {
                let v: u64 = match self.start {
                    Some(s) => wrap_sub(t, s) as u64,
                    None => t as u64,
                };
                self.latest = Some(t);
                self.timestamp = v;
                Ok(Timestamp { timestamp: v, clock_rate: self.clock_rate })
            },
            Some(l) => {
                let d: u64 = wrap_sub(t, l) as u64;
                if self.timestamp <= u64::MAX - d {
                    self.timestamp = self.timestamp + d;
                    self.latest = Some(t);
                    Ok(Timestamp { timestamp: self.timestamp, clock_rate: self.clock_rate })
                } else {
                    Err(TimelineError::Overflow { rtp_timestamp: t })
                }
            },
        }
    }

    /// Computes the logical timestamp the 32-bit RTP timestamp `t` maps to
    /// without changing any state: the receiver borrows `self` immutably,
    /// so a `place` call can never affect a later `advance_to`.
    pub fn place(&self, t: u32) -> (r: Result<Timestamp, TimelineError>)
        ensures
            match r {
                Ok(ts) => {
                    &&& 0 <= self.place_target(t) <= u64::MAX
                    &&& ts == (Timestamp {
                        timestamp: self.place_target(t) as u64,
                        clock_rate: self.clock_rate,
                    })
                },
                Err(e) => match e {
                    TimelineError::BeforeStart { rtp_timestamp } => {
                        rtp_timestamp == t && self.place_target(t) < 0
                    },
                    TimelineError::Overflow { rtp_timestamp } => {
                        rtp_timestamp == t && self.place_target(t) > u64::MAX
                    },
                },
            },
    {
        match self.latest {
            None => {
                let v: u64 = match self.start {
                    Some(s) => wrap_sub(t, s) as u64,
                    None => t as u64,
                };
                Ok(Timestamp { timestamp: v, clock_rate: self.clock_rate })
            },
            Some(l) => {
                let d: u32 = wrap_sub(t, l);
                if d >= 0x8000_0000 {
                    let back: u64 = 0x1_0000_0000u64 - d as u64;
                    if self.timestamp >= back {
                        Ok(Timestamp {
                            timestamp: self.timestamp - back,
                            clock_rate: self.clock_rate,
                        })
                    } else {
                        Err(TimelineError::BeforeStart { rtp_timestamp: t })
                    }
                } else {
                    if self.timestamp <= u64::MAX - d as u64 {
                        Ok(Timestamp {
                            timestamp: self.timestamp + d as u64,
                            clock_rate: self.clock_rate,
                        })
                    } else {
                        Err(TimelineError::Overflow { rtp_timestamp: t })
                    }
                }
            },
        }
    }
}

/// The unsigned 32-bit wraparound distance, computed without wrapping
/// machine arithmetic.
pub fn wrap_sub(to: u32, from: u32) -> (r: u32)
    ensures
        r as int == wrap_delta(from, to),
{
    if to >= from {
        proof {
            vstd::arithmetic::div_mod::lemma_small_mod((to - from) as nat, 0x1_0000_0000nat);
        }
        to - from
    } else {
        let r: u32 = u32::MAX - (from - to) + 1;
        proof {
            assert(r as int == to as int - from as int + 0x1_0000_0000);
            vstd::arithmetic::div_mod::lemma_mod_add_multiples_vanish(
                to as int - from as int,
                0x1_0000_0000,
            );
            vstd::arithmetic::div_mod::lemma_small_mod(r as nat, 0x1_0000_0000nat);
        }
        r
    }
}

/// The timeline after an `advance_to(t)` call that did not overflow.
pub open spec fn advanced(tl: Timeline, t: u32) -> Timeline {
    Timeline { latest: Some(t), timestamp: tl.advance_target(t) as u64, ..tl }
}

/// The timeline after feeding every timestamp of `ts` to `advance_to`,
/// in order.
pub open spec fn run(tl: Timeline, ts: Seq<u32>) -> Timeline
    decreases ts.len(),
{
    if ts.len() == 0 {
        tl
    } else {
        advanced(run(tl, ts.drop_last()), ts.last())
    }
}

/// No prefix of the run overflows the 64-bit logical clock.
pub open spec fn run_fits(tl: Timeline, ts: Seq<u32>) -> bool {
    forall|i: int|
        0 <= i < ts.len() ==> #[trigger] run(tl, ts.take(i)).advance_target(ts[i]) <= u64::MAX
}

/// The reference computation of the quantified timeline property: latch the
/// first timestamp, then add the unsigned 32-bit wraparound distance between
/// consecutive timestamps to an accumulator.
pub open spec fn reference_value(ts: Seq<u32>, i: int) -> int
    decreases i,
{
    if i <= 0 {
        ts[0] as int
    } else {
        reference_value(ts, i - 1) + wrap_delta(ts[i - 1], ts[i])
    }
}

proof fn lemma_run_take_succ(tl: Timeline, ts: Seq<u32>, i: int)
    requires
        0 <= i < ts.len(),
    ensures
        run(tl, ts.take(i + 1)) == advanced(run(tl, ts.take(i)), ts[i]),
{
    assert(ts.take(i + 1).drop_last() =~= ts.take(i));
    assert(ts.take(i + 1).last() == ts[i]);
}

/// Law: on a fresh timeline without a start policy, the logical timestamps
/// that a non-overflowing sequence of `advance_to` calls produces are
/// exactly those of the reference computation.
pub proof fn lemma_matches_reference(clock_rate: u32, ts: Seq<u32>, i: int)
    requires
        0 <= i < ts.len(),
        run_fits(Timeline { latest: None, timestamp: 0, clock_rate, start: None }, ts),
    ensures
        run(Timeline { latest: None, timestamp: 0, clock_rate, start: None }, ts.take(i + 1))
            .timestamp == reference_value(ts, i),
        0 <= reference_value(ts, i) <= u64::MAX,
    decreases i,
{
    let tl0 = Timeline { latest: None, timestamp: 0, clock_rate, start: None };
    lemma_run_take_succ(tl0, ts, i);
    if i == 0 {
        assert(ts.take(0) =~= Seq::<u32>::empty());
        assert(run(tl0, ts.take(0)) == tl0);
        assert(tl0.advance_target(ts[0]) == ts[0] as int);
    } else {
        lemma_matches_reference(clock_rate, ts, i - 1);
        let prev = run(tl0, ts.take(i));
        lemma_run_take_succ(tl0, ts, i - 1);
        assert(prev.latest == Some(ts[i - 1]));
        assert(prev.advance_target(ts[i]) == prev.timestamp + wrap_delta(ts[i - 1], ts[i]));
        vstd::arithmetic::div_mod::lemma_mod_bound(
            ts[i] as int - ts[i - 1] as int,
            0x1_0000_0000,
        );
    }
}

/// Law: each `advance_to` moves the logical clock forward or leaves it in
/// place, so over any non-overflowing run the emitted logical timestamps
/// are non-decreasing.
pub proof fn lemma_run_monotone(tl: Timeline, ts: Seq<u32>, i: int, j: int)
    requires
        0 <= i <= j <= ts.len(),
        tl.latest is None ==> tl.timestamp == 0,
        run_fits(tl, ts),
    ensures
        run(tl, ts.take(i)).timestamp <= run(tl, ts.take(j)).timestamp,
    decreases j - i,
{
    if i < j {
        lemma_run_monotone(tl, ts, i, j - 1);
        lemma_run_take_succ(tl, ts, j - 1);
        let prev = run(tl, ts.take(j - 1));
        if j - 1 == 0 {
            assert(ts.take(0) =~= Seq::<u32>::empty());
        } else {
            lemma_run_take_succ(tl, ts, j - 2);
        }
        match prev.latest {
            None => {
                vstd::arithmetic::div_mod::lemma_mod_bound(
                    ts[j - 1] as int - (match prev.start {
                        Some(s) => s as int,
                        None => 0,
                    }),
                    0x1_0000_0000,
                );
            },
            Some(l) => {
                vstd::arithmetic::div_mod::lemma_mod_bound(
                    ts[j - 1] as int - l as int,
                    0x1_0000_0000,
                );
            },
        }
    }
}

} // verus!
