//! Scripted wave scheduler.
//!
//! A level's waves are authored as timed drone releases; `from_waves`
//! flattens them into a reversed queue of "do this, then wait" elements that
//! is only ever popped from the end. A single countdown governs when the next
//! element fires, and may be fast-forwarded while the battle stands cleared.
//! All times are in milliseconds.

use vstd::prelude::*;

use crate::drones::Drones;

verus! {

/// Delay after each wave's last release before the next wave.
pub const WAVES_INTERVAL: u64 = 30_000;

/// Largest authored release time or end delay.
pub const MAX_WAVE_TIME: u64 = 3_600_000;

/// Most releases one wave may hold.
pub const MAX_WAVE_LEN: usize = 1_000;

/// Fast-forwarding applies only while the countdown still holds more than
/// this, and leaves exactly this much.
pub const FAST_FORWARD_FLOOR: u64 = 2_000;

/// Fast-forwarding applies only above this remaining time.
pub const FAST_FORWARD_THRESHOLD: u64 = 2_100;

/// One authored wave: drone releases by time since the wave's start, plus a
/// delay after the last release.
#[derive(Clone, Eq, PartialEq, Debug)]
pub struct Wave {
    /// Spawn times after the beginning of the wave, non-decreasing; the
    /// first one should be roughly zero.
    pub timed_departures: Vec<(u64, Drones)>,
    /// Delay after the last spawn.
    pub end_delay: u64,
}

/// A wave is never empty, its times are non-decreasing, and all its times
/// stay within the authoring bound.
pub open spec fn wave_ok(w: Wave) -> bool {
    &&& 1 <= w.timed_departures@.len() <= MAX_WAVE_LEN
    &&& forall|i: int|
        0 <= i < w.timed_departures@.len() - 1 ==> (#[trigger] w.timed_departures@[i]).0
            <= w.timed_departures@[i + 1].0
    &&& forall|i: int|
        0 <= i < w.timed_departures@.len() ==> (#[trigger] w.timed_departures@[i]).0
            <= MAX_WAVE_TIME
    &&& w.end_delay <= MAX_WAVE_TIME
}

pub open spec fn waves_ok(ws: Seq<Wave>) -> bool {
    forall|i: int| 0 <= i < ws.len() ==> wave_ok(#[trigger] ws[i])
}

/// An element of the flattened queue: do the thing now, then wait.
#[derive(Copy, Clone, Eq, PartialEq, Structural, Debug)]
pub enum WaveIteratorElement {
    /// Spawn this drone now, and wait this many milliseconds.
    NextDrone(Drones, u64),
    /// Start a new wave now, and wait this many milliseconds.
    NextWave(u64),
}

/// The wait carried by an element.
pub open spec fn element_delay(e: WaveIteratorElement) -> u64 {
    match e {
        WaveIteratorElement::NextDrone(_, t) => t,
        WaveIteratorElement::NextWave(t) => t,
    }
}

/// The flattened form of one wave, in forward order: the wave's start delay,
/// then each release with the gap to the next one, the last release carrying
/// the wave's end delay.
pub open spec fn flatten_wave(w: Wave) -> Seq<WaveIteratorElement> {
    let ts = w.timed_departures@;
    Seq::new(
        ts.len() + 1,
        |k: int|
            if k == 0 {
                WaveIteratorElement::NextWave(ts[0].0)
            } else if k < ts.len() {
                WaveIteratorElement::NextDrone(ts[k - 1].1, (ts[k].0 - ts[k - 1].0) as u64)
            } else {
                WaveIteratorElement::NextDrone(ts[k - 1].1, w.end_delay)
            },
    )
}

/// The flattened form of a whole script, wave after wave, in forward order.
pub open spec fn flatten_script(ws: Seq<Wave>) -> Seq<WaveIteratorElement>
    decreases ws.len(),
{
    if ws.len() == 0 {
        Seq::empty()
    } else {
        flatten_wave(ws[0]) + flatten_script(ws.skip(1))
    }
}

/// How many releases a queue holds.
pub open spec fn count_drones(s: Seq<WaveIteratorElement>) -> int
    decreases s.len(),
{
    if s.len() == 0 {
        0
    } else {
        count_drones(s.drop_last()) + if s.last() is NextDrone {
            1int
        } else {
            0int
        }
    }
}

/// The sum of all waits a queue holds.
pub open spec fn sum_delays(s: Seq<WaveIteratorElement>) -> int
    decreases s.len(),
{
    if s.len() == 0 {
        0
    } else {
        sum_delays(s.drop_last()) + element_delay(s.last())
    }
}

/// Releases authored over a whole script.
pub open spec fn total_departures(ws: Seq<Wave>) -> int
    decreases ws.len(),
{
    if ws.len() == 0 {
        0
    } else {
        ws[0].timed_departures@.len() + total_departures(ws.skip(1))
    }
}

/// Summing the waits over a prefix of a flattened wave reproduces the
/// authored time of the prefix's last release.
proof fn lemma_wave_prefix_sum(w: Wave, k: int)
    requires
        wave_ok(w),
        0 <= k < w.timed_departures@.len(),
    ensures
        sum_delays(flatten_wave(w).take(k + 1)) == w.timed_departures@[k].0,
    decreases k,
{
    let f = flatten_wave(w);
    reveal_with_fuel(sum_delays, 3);
    if k == 0 {
        assert(f.take(1).drop_last() =~= Seq::<WaveIteratorElement>::empty());
        assert(f.take(1).last() == f[0]);
        assert(f.take(1).len() == 1);
    } else {
        lemma_wave_prefix_sum(w, k - 1);
        assert(f.take(k + 1).drop_last() =~= f.take(k));
        assert(f.take(k + 1).last() == f[k]);
        assert(w.timed_departures@[k - 1].0 <= w.timed_departures@[k].0);
        assert(element_delay(f[k]) == w.timed_departures@[k].0 - w.timed_departures@[k - 1].0);
    }
}

/// The wave-flattening round trip, per wave: flattening yields one release
/// element per authored release, and the waits sum to the wave's authored
/// end-to-end duration, its last release time plus its end delay.
pub proof fn lemma_wave_round_trip(w: Wave)
    requires
        wave_ok(w),
    ensures
        flatten_wave(w).len() == w.timed_departures@.len() + 1,
        count_drones(flatten_wave(w)) == w.timed_departures@.len(),
        sum_delays(flatten_wave(w)) == w.timed_departures@.last().0 + w.end_delay,
{
    let f = flatten_wave(w);
    let n = w.timed_departures@.len() as int;
    lemma_wave_prefix_sum(w, n - 1);
    assert(f.drop_last() =~= f.take(n));
    assert(f.last() == f[n]);
    lemma_wave_count(w, n + 1);
    assert(f.take(n + 1) =~= f);
}

/// Every element of a flattened wave past the first is a release.
proof fn lemma_wave_count(w: Wave, k: int)
    requires
        wave_ok(w),
        0 <= k <= w.timed_departures@.len() + 1,
    ensures
        count_drones(flatten_wave(w).take(k)) == if k == 0 {
            0
        } else {
            k - 1
        },
    decreases k,
{
    let f = flatten_wave(w);
    reveal_with_fuel(count_drones, 3);
    if k > 0 {
        lemma_wave_count(w, k - 1);
        assert(f.take(k).drop_last() =~= f.take(k - 1));
        assert(f.take(k).last() == f[k - 1]);
    }
}

/// The wave-flattening round trip, per script: the flattened queue holds one
/// release element per authored release, and one wave-advance element per
/// wave.
pub proof fn lemma_script_round_trip(ws: Seq<Wave>)
    requires
        waves_ok(ws),
    ensures
        flatten_script(ws).len() == total_departures(ws) + ws.len(),
        count_drones(flatten_script(ws)) == total_departures(ws),
    decreases ws.len(),
{
    if ws.len() > 0 {
        lemma_script_round_trip(ws.skip(1));
        lemma_wave_round_trip(ws[0]);
        lemma_count_drones_concat(flatten_wave(ws[0]), flatten_script(ws.skip(1)));
    }
}

/// Release counting distributes over concatenation.
proof fn lemma_count_drones_concat(a: Seq<WaveIteratorElement>, b: Seq<WaveIteratorElement>)
    ensures
        count_drones(a + b) == count_drones(a) + count_drones(b),
    decreases b.len(),
{
    if b.len() == 0 {
        assert(a + b =~= a);
    } else {
        lemma_count_drones_concat(a, b.drop_last());
        assert((a + b).drop_last() =~= a + b.drop_last());
        assert((a + b).last() == b.last());
    }
}

/// A countdown with a fixed duration, advanced once per tick by the shared
/// elapsed-time clock.
#[derive(Copy, Clone, Eq, PartialEq, Structural, Debug)]
pub struct Countdown {
    /// Full length of the countdown.
    pub duration: u64,
    /// How much of it has passed; never exceeds the duration.
    pub elapsed: u64,
    /// The countdown has already reported its expiry; it reports only once.
    pub fired: bool,
}

impl Countdown {
    pub open spec fn wf(&self) -> bool {
        self.elapsed <= self.duration
    }

    pub open spec fn remaining_spec(&self) -> int {
        self.duration - self.elapsed
    }

    pub fn new(duration: u64) -> (r: Self)
        ensures
            r == (Countdown { duration, elapsed: 0, fired: false }),
            r.wf(),
    {
        Countdown { duration, elapsed: 0, fired: false }
    }

    pub fn remaining(&self) -> (r: u64)
        requires
            self.wf(),
        ensures
            r == self.remaining_spec(),
    {
        self.duration - self.elapsed
    }

    /// Advances the countdown, saturating at its duration; true exactly when
    /// the countdown reaches its duration, reported once. A zero-length
    /// countdown expires on its first tick, whatever the tick covers.
    pub fn tick(&mut self, dt_ms: u64) -> (just_finished: bool)
        requires
            old(self).wf(),
        ensures
            final(self).duration == old(self).duration,
            final(self).wf(),
            final(self).elapsed as int == if old(self).elapsed + dt_ms >= old(self).duration {
                old(self).duration as int
            } else {
                old(self).elapsed + dt_ms
            },
            just_finished <==> (!old(self).fired && old(self).elapsed + dt_ms >= old(
                self,
            ).duration),
            final(self).fired == (old(self).fired || just_finished),
    {
        if dt_ms >= self.duration - self.elapsed {
            self.elapsed = self.duration;
        } else {
            self.elapsed = self.elapsed + dt_ms;
        }
        if !self.fired && self.elapsed >= self.duration {
            self.fired = true;
            true
        } else {
            false
        }
    }

    /// The fast-forward rule: while the battle stands cleared and the
    /// countdown still holds more than the threshold, it is cut to the floor.
    /// It never grows, and one application never drives it below the floor.
    pub fn fast_forward(&mut self)
        requires
            old(self).wf(),
        ensures
            final(self).duration == old(self).duration,
            final(self).wf(),
            old(self).remaining_spec() >= FAST_FORWARD_THRESHOLD ==> final(self).remaining_spec()
                == FAST_FORWARD_FLOOR,
            old(self).remaining_spec() < FAST_FORWARD_THRESHOLD ==> *final(self) == *old(self),
            final(self).remaining_spec() <= old(self).remaining_spec(),
            old(self).remaining_spec() >= FAST_FORWARD_FLOOR ==> final(self).remaining_spec()
                >= FAST_FORWARD_FLOOR,
    {
        if self.duration - self.elapsed >= FAST_FORWARD_THRESHOLD {
            self.elapsed = self.duration - FAST_FORWARD_FLOOR;
        }
    }
}

/// The flattened queue of a level's waves, consumed by popping from the end,
/// under a single countdown that governs when the next element fires.
#[derive(Clone, Eq, PartialEq, Debug)]
pub struct WaveIterator {
    pub next: Countdown,
    /// Upcoming elements, in reversed order: popping yields the next one.
    pub upcoming: Vec<WaveIteratorElement>,
}

impl WaveIterator {
    pub open spec fn wf(&self) -> bool {
        self.next.wf()
    }

    /// Flattens a wave script into the reversed queue: the element at index
    /// `k` from the queue's end is the `k`-th element of the forward
    /// flattening. The opening countdown is two seconds.
    pub fn from_waves(waves: &Vec<Wave>) -> (r: WaveIterator)
        requires
            waves_ok(waves@),
        ensures
            r.wf(),
            r.next == (Countdown { duration: 2_000, elapsed: 0, fired: false }),
            r.upcoming@.len() == flatten_script(waves@).len(),
            forall|k: int|
                0 <= k < r.upcoming@.len() ==> #[trigger] r.upcoming@[k] == flatten_script(
                    waves@,
                )[r.upcoming@.len() - 1 - k],
    {
        let ghost ws = waves@;
        let mut forward: Vec<WaveIteratorElement> = Vec::new();
        let n = waves.len();
        let mut w: usize = 0;
        while w < n
            invariant
                waves@ == ws,
                n == ws.len(),
                0 <= w <= n,
                waves_ok(ws),
                forward@ == flatten_script(ws.take(w as int)),
            decreases n - w,
        {
            let ghost fw_before = forward@;
            let departures = &waves[w].timed_departures;
            let m = departures.len();
            assert(m >= 1);
            let ghost fwave = flatten_wave(ws[w as int]);
            let mut k: usize = 0;
            while k < m
                invariant
                    waves@ == ws,
                    n == ws.len(),
                    0 <= w < n,
                    waves_ok(ws),
                    departures == &waves@[w as int].timed_departures,
                    m == departures@.len(),
                    1 <= m <= MAX_WAVE_LEN,
                    0 <= k <= m,
                    fwave == flatten_wave(ws[w as int]),
                    forward@ == fw_before + fwave.take(k as int),
                decreases m - k,
            {
                if k == 0 {
                    forward.push(WaveIteratorElement::NextWave(departures[0].0));
                } else {
                    let (t0, drone) = departures[k - 1];
                    let (t1, _) = departures[k];
                    forward.push(WaveIteratorElement::NextDrone(drone, t1 - t0));
                }
                proof {
                    assert(fwave.take(k as int + 1) =~= fwave.take(k as int).push(
                        fwave[k as int],
                    ));
                }
                k = k + 1;
            }
            let (_, last_drone) = departures[m - 1];
            forward.push(WaveIteratorElement::NextDrone(last_drone, waves[w].end_delay));
            proof {
                assert(fwave.take(m as int + 1) =~= fwave.take(m as int).push(fwave[m as int]));
                assert(fwave.take(m as int + 1) =~= fwave);
                lemma_flatten_script_take_step(ws, w as int);
            }
            w = w + 1;
        }
        proof {
            assert(ws.take(n as int) =~= ws);
        }
        let ghost flat = flatten_script(ws);

        // Reverse into the pop-from-the-end queue.
        let total = forward.len();
        let mut upcoming: Vec<WaveIteratorElement> = Vec::new();
        let mut i: usize = 0;
        while i < total
            invariant
                forward@ == flat,
                total == flat.len(),
                0 <= i <= total,
                upcoming@.len() == i,
                forall|k: int|
                    0 <= k < i ==> #[trigger] upcoming@[k] == flat[total - 1 - k],
            decreases total - i,
        {
            upcoming.push(forward[total - 1 - i]);
            i = i + 1;
        }
        WaveIterator { next: Countdown::new(2_000), upcoming }
    }
}

/// Flattening one more wave extends the flattened prefix of the script.
proof fn lemma_flatten_script_take_step(ws: Seq<Wave>, w: int)
    requires
        0 <= w < ws.len(),
    ensures
        flatten_script(ws.take(w + 1)) == flatten_script(ws.take(w)) + flatten_wave(ws[w]),
    decreases w,
{
    if w == 0 {
        assert(ws.take(1)[0] == ws[0]);
        assert(flatten_script(ws.take(1).skip(1)) =~= Seq::<WaveIteratorElement>::empty());
        assert(flatten_script(ws.take(0)) =~= Seq::<WaveIteratorElement>::empty());
        assert(flatten_script(ws.take(1)) == flatten_wave(ws.take(1)[0]) + flatten_script(
            ws.take(1).skip(1),
        ));
        assert(flatten_wave(ws[0]) + Seq::<WaveIteratorElement>::empty() =~= flatten_wave(ws[0]));
        assert(flatten_script(ws.take(0)) + flatten_wave(ws[0]) =~= flatten_wave(ws[0]));
    } else {
        lemma_flatten_script_take_step(ws.skip(1), w - 1);
        assert(ws.take(w + 1).skip(1) =~= ws.skip(1).take(w));
        assert(ws.take(w).skip(1) =~= ws.skip(1).take(w - 1));
        assert(ws.take(w + 1)[0] == ws[0]);
        assert(ws.take(w)[0] == ws[0]);
        assert(ws.skip(1)[w - 1] == ws[w]);
        assert(flatten_script(ws.take(w + 1)) == flatten_wave(ws[0]) + flatten_script(
            ws.skip(1).take(w),
        ));
        assert(flatten_script(ws.take(w)) == flatten_wave(ws[0]) + flatten_script(
            ws.skip(1).take(w - 1),
        ));
        assert(flatten_wave(ws[0]) + (flatten_script(ws.skip(1).take(w - 1)) + flatten_wave(
            ws[w],
        )) =~= (flatten_wave(ws[0]) + flatten_script(ws.skip(1).take(w - 1))) + flatten_wave(
            ws[w],
        ));
    }
}

/// What one scheduler tick did.
#[derive(Copy, Clone, Eq, PartialEq, Structural, Debug)]
pub enum WaveTick {
    /// The countdown still runs.
    Waiting,
    /// The countdown expired on a release element: spawn this drone.
    Spawn(Drones),
    /// The countdown expired on a wave-advance element: no spawn.
    NewWave,
    /// The countdown expired and the queue is exhausted.
    Exhausted,
}

impl WaveIterator {
    /// One scheduler tick: advance the countdown; on expiry, pop the next
    /// element, restart the countdown with the element's wait, and report
    /// the element's action.
    pub fn tick(&mut self, dt_ms: u64) -> (r: WaveTick)
        requires
            old(self).wf(),
        ensures
            final(self).wf(),
            r is Waiting <==> (old(self).next.fired || old(self).next.elapsed + dt_ms < old(
                self,
            ).next.duration),
            r is Waiting ==> final(self).next == (Countdown {
                duration: old(self).next.duration,
                elapsed: (if old(self).next.elapsed + dt_ms >= old(self).next.duration {
                    old(self).next.duration as int
                } else {
                    old(self).next.elapsed + dt_ms
                }) as u64,
                fired: old(self).next.fired,
            }),
            r is Waiting ==> final(self).upcoming@ == old(self).upcoming@,
            !(r is Waiting) ==> (old(self).upcoming@.len() == 0 <==> r is Exhausted),
            r is Exhausted ==> final(self).upcoming@ == old(self).upcoming@,
            (r is Spawn || r is NewWave) ==> {
                &&& old(self).upcoming@.len() > 0
                &&& final(self).upcoming@ == old(self).upcoming@.drop_last()
                &&& final(self).next == (Countdown {
                    duration: element_delay(old(self).upcoming@.last()),
                    elapsed: 0,
                    fired: false,
                })
                &&& match old(self).upcoming@.last() {
                    WaveIteratorElement::NextDrone(d, _) => r == WaveTick::Spawn(d),
                    WaveIteratorElement::NextWave(_) => r is NewWave,
                }
            },
    {
        let just_finished = self.next.tick(dt_ms);
        if !just_finished {
            return WaveTick::Waiting;
        }
        let ghost up0 = self.upcoming@;
        proof {
            if up0.len() > 0 {
                assert(up0.subrange(0, up0.len() - 1) =~= up0.drop_last());
            }
        }
        match self.upcoming.pop() {
            Some(WaveIteratorElement::NextWave(t)) => {
                self.next = Countdown::new(t);
                WaveTick::NewWave
            },
            Some(WaveIteratorElement::NextDrone(drone, t)) => {
                self.next = Countdown::new(t);
                WaveTick::Spawn(drone)
            },
            None => WaveTick::Exhausted,
        }
    }
}

} // verus!

verus! {

impl WaveIterator {
    /// The wave iterator of a level: its authored script flattened, under
    /// the opening countdown. Levels outside the authored range share one
    /// long script.
    pub fn from_level(level: u8) -> (r: WaveIterator)
        ensures
            r.wf(),
            r.next == (Countdown { duration: 2_000, elapsed: 0, fired: false }),
            r.upcoming@.len() >= 2,
    {
        let waves = match level {
            1 => waves_level_1(),
            2 => waves_level_2(),
            3 => waves_level_3(),
            4 => waves_level_4(),
            5 => waves_level_5(),
            _ => waves_default(),
        };
        let it = WaveIterator::from_waves(&waves);
        proof {
            let ws = waves@;
            assert(flatten_script(ws) == flatten_wave(ws[0]) + flatten_script(ws.skip(1)));
            assert(flatten_wave(ws[0]).len() >= 2);
        }
        it
    }
}

pub fn waves_default() -> (r: Vec<Wave>)
    ensures
        waves_ok(r@),
        r@.len() == 22,
{
    vec![
        Wave {
            timed_departures: vec![
                (0, Drones::Simple1),
            ],
            end_delay: WAVES_INTERVAL,
        },
        Wave {
            timed_departures: vec![
                (0, Drones::Simple2),
            ],
            end_delay: WAVES_INTERVAL,
        },
        Wave {
            timed_departures: vec![
                (0, Drones::Simple3),
            ],
            end_delay: WAVES_INTERVAL,
        },
        Wave {
            timed_departures: vec![
                (0, Drones::Simple1),
                (5000, Drones::Simple1),
            ],
            end_delay: WAVES_INTERVAL,
        },
        Wave {
            timed_departures: vec![
                (0, Drones::Simple2),
                (5000, Drones::Simple2),
            ],
            end_delay: WAVES_INTERVAL,
        },
        Wave {
            timed_departures: vec![
                (0, Drones::Simple3),
                (5000, Drones::Simple3),
            ],
            end_delay: WAVES_INTERVAL,
        },
        Wave {
            timed_departures: vec![
                (0, Drones::Simple1),
                (5000, Drones::Simple2),
                (10000, Drones::Simple2),
            ],
            end_delay: WAVES_INTERVAL,
        },
        Wave {
            timed_departures: vec![
                (0, Drones::Simple2),
                (3000, Drones::Simple1),
                (6000, Drones::Simple3),
                (9000, Drones::Simple1),
                (12000, Drones::Simple2),
            ],
            end_delay: WAVES_INTERVAL,
        },
        Wave {
            timed_departures: vec![
                (0, Drones::Medium1),
            ],
            end_delay: WAVES_INTERVAL,
        },
        Wave {
            timed_departures: vec![
                (0, Drones::Medium1),
                (7000, Drones::Simple1),
                (10000, Drones::Simple3),
            ],
            end_delay: WAVES_INTERVAL,
        },
        Wave {
            timed_departures: vec![
                (0, Drones::Simple2),
                (2500, Drones::Simple1),
                (5000, Drones::Simple3),
                (7500, Drones::Simple1),
                (12500, Drones::Simple2),
                (15000, Drones::Simple1),
                (17500, Drones::Simple3),
                (20000, Drones::Simple1),
            ],
            end_delay: WAVES_INTERVAL,
        },
        Wave {
            timed_departures: vec![
                (0, Drones::Medium2),
                (4000, Drones::Medium1),
            ],
            end_delay: WAVES_INTERVAL,
        },
        Wave {
            timed_departures: vec![
                (0, Drones::Medium1),
                (5000, Drones::Medium1),
                (10000, Drones::Medium2),
                (15000, Drones::Medium2),
            ],
            end_delay: WAVES_INTERVAL,
        },
        Wave {
            timed_departures: vec![
                (0, Drones::Medium1),
                (5000, Drones::Medium2),
                (10000, Drones::Medium3),
                (15000, Drones::Medium4),
                (20000, Drones::Simple2),
                (22000, Drones::Simple1),
                (24000, Drones::Simple3),
                (26000, Drones::Simple1),
            ],
            end_delay: WAVES_INTERVAL,
        },
        Wave {
            timed_departures: vec![
                (0, Drones::Big1),
            ],
            end_delay: WAVES_INTERVAL,
        },
        Wave {
            timed_departures: vec![
                (0, Drones::Medium2),
                (5000, Drones::Simple1),
                (7000, Drones::Simple3),
                (15000, Drones::Big2),
                (35000, Drones::Medium3),
                (40000, Drones::Medium4),
                (55000, Drones::Simple2),
                (57000, Drones::Simple1),
                (65000, Drones::Big1),
            ],
            end_delay: WAVES_INTERVAL,
        },
        Wave {
            timed_departures: vec![
                (0, Drones::Big2),
                (10000, Drones::Simple1),
                (12000, Drones::Simple2),
                (14000, Drones::Simple3),
                (16000, Drones::Simple2),
                (18000, Drones::Simple3),
            ],
            end_delay: WAVES_INTERVAL,
        },
        Wave {
            timed_departures: vec![
                (0, Drones::Big1),
                (15000, Drones::Medium1),
                (25000, Drones::Medium3),
                (35000, Drones::Medium2),
                (45000, Drones::Medium3),
                (55000, Drones::Medium1),
            ],
            end_delay: WAVES_INTERVAL,
        },
        Wave {
            timed_departures: vec![
                (0, Drones::Big2),
                (20000, Drones::Big1),
                (40000, Drones::Big2),
                (60000, Drones::Big2),
            ],
            end_delay: WAVES_INTERVAL,
        },
        Wave {
            timed_departures: vec![
                (0, Drones::Invader),
                (150000, Drones::Medium2),
                (175000, Drones::Medium4),
                (300000, Drones::Big2),
            ],
            end_delay: WAVES_INTERVAL,
        },
        Wave {
            timed_departures: vec![
                (0, Drones::Big2),
                (20000, Drones::Big2),
                (40000, Drones::Big2),
                (60000, Drones::Big2),
                (100000, Drones::Big1),
                (120000, Drones::Big1),
                (140000, Drones::Big1),
                (160000, Drones::Big1),
                (200000, Drones::Big2),
                (215000, Drones::Big1),
                (230000, Drones::Big2),
                (245000, Drones::Big1),
                (260000, Drones::Big2),
            ],
            end_delay: WAVES_INTERVAL,
        },
        Wave {
            timed_departures: vec![
                (0, Drones::Invader),
                (250000, Drones::Invader),
            ],
            end_delay: WAVES_INTERVAL,
        },
    ]
}

pub fn waves_level_1() -> (r: Vec<Wave>)
    ensures
        waves_ok(r@),
        r@.len() == 5,
{
    vec![
        Wave {
            timed_departures: vec![
                (0, Drones::Simple1),
            ],
            end_delay: WAVES_INTERVAL,
        },
        Wave {
            timed_departures: vec![
                (0, Drones::Simple2),
                (4000, Drones::Simple3),
            ],
            end_delay: WAVES_INTERVAL,
        },
        Wave {
            timed_departures: vec![
                (0, Drones::Simple1),
                (4000, Drones::Simple3),
                (8000, Drones::Simple1),
                (12000, Drones::Simple2),
            ],
            end_delay: WAVES_INTERVAL,
        },
        Wave {
            timed_departures: vec![
                (0, Drones::Medium2),
            ],
            end_delay: WAVES_INTERVAL,
        },
        Wave {
            timed_departures: vec![
                (0, Drones::Medium2),
                (6000, Drones::Medium3),
            ],
            end_delay: WAVES_INTERVAL,
        },
    ]
}

pub fn waves_level_2() -> (r: Vec<Wave>)
    ensures
        waves_ok(r@),
        r@.len() == 12,
{
    vec![
        Wave {
            timed_departures: vec![
                (0, Drones::Simple3),
                (2000, Drones::Simple3),
            ],
            end_delay: WAVES_INTERVAL,
        },
        Wave {
            timed_departures: vec![
                (0, Drones::Simple2),
                (3000, Drones::Simple1),
                (6000, Drones::Simple2),
                (9000, Drones::Simple1),
            ],
            end_delay: WAVES_INTERVAL,
        },
        Wave {
            timed_departures: vec![
                (0, Drones::Simple3),
                (3000, Drones::Simple2),
                (6000, Drones::Simple3),
                (9000, Drones::Simple2),
                (12000, Drones::Simple3),
                (15000, Drones::Simple2),
            ],
            end_delay: WAVES_INTERVAL,
        },
        Wave {
            timed_departures: vec![
                (0, Drones::Medium1),
            ],
            end_delay: WAVES_INTERVAL,
        },
        Wave {
            timed_departures: vec![
                (0, Drones::Simple1),
                (4000, Drones::Simple1),
                (10000, Drones::Medium1),
            ],
            end_delay: WAVES_INTERVAL,
        },
        Wave {
            timed_departures: vec![
                (0, Drones::Medium3),
                (8000, Drones::Medium2),
            ],
            end_delay: WAVES_INTERVAL,
        },
        Wave {
            timed_departures: vec![
                (0, Drones::Medium1),
                (5000, Drones::Medium2),
                (10000, Drones::Medium3),
                (15000, Drones::Medium4),
            ],
            end_delay: WAVES_INTERVAL,
        },
        Wave {
            timed_departures: vec![
                (0, Drones::Simple1),
                (3000, Drones::Simple2),
                (8000, Drones::Medium1),
                (12000, Drones::Simple3),
                (15000, Drones::Simple2),
                (20000, Drones::Medium4),
            ],
            end_delay: WAVES_INTERVAL,
        },
        Wave {
            timed_departures: vec![
                (0, Drones::Simple3),
                (3000, Drones::Simple3),
                (6000, Drones::Simple2),
                (9000, Drones::Simple2),
                (12000, Drones::Simple1),
                (12000, Drones::Simple1),
                (20000, Drones::Big1),
            ],
            end_delay: WAVES_INTERVAL,
        },
        Wave {
            timed_departures: vec![
                (0, Drones::Medium2),
                (5000, Drones::Medium3),
                (12000, Drones::Big1),
            ],
            end_delay: WAVES_INTERVAL,
        },
        Wave {
            timed_departures: vec![
                (0, Drones::Big1),
                (5000, Drones::Big1),
            ],
            end_delay: WAVES_INTERVAL,
        },
        Wave {
            timed_departures: vec![
                (0, Drones::Big1),
                (5000, Drones::Big1),
                (10000, Drones::Big1),
            ],
            end_delay: WAVES_INTERVAL,
        },
    ]
}

pub fn waves_level_3() -> (r: Vec<Wave>)
    ensures
        waves_ok(r@),
        r@.len() == 12,
{
    vec![
        Wave {
            timed_departures: vec![
                (0, Drones::Simple1),
                (2000, Drones::Simple1),
            ],
            end_delay: WAVES_INTERVAL,
        },
        Wave {
            timed_departures: vec![
                (0, Drones::Simple1),
                (4000, Drones::Simple2),
                (6000, Drones::Simple2),
            ],
            end_delay: WAVES_INTERVAL,
        },
        Wave {
            timed_departures: vec![
                (0, Drones::Simple2),
                (2000, Drones::Simple1),
                (4000, Drones::Simple3),
                (6000, Drones::Simple1),
            ],
            end_delay: WAVES_INTERVAL,
        },
        Wave {
            timed_departures: vec![
                (0, Drones::Medium2),
                (5000, Drones::Medium3),
            ],
            end_delay: WAVES_INTERVAL,
        },
        Wave {
            timed_departures: vec![
                (0, Drones::Simple2),
                (2000, Drones::Simple1),
                (4000, Drones::Simple3),
                (6000, Drones::Simple1),
                (8000, Drones::Simple3),
                (10000, Drones::Simple2),
            ],
            end_delay: WAVES_INTERVAL,
        },
        Wave {
            timed_departures: vec![
                (0, Drones::Medium2),
                (5000, Drones::Medium3),
                (10000, Drones::Medium2),
                (15000, Drones::Medium3),
            ],
            end_delay: WAVES_INTERVAL,
        },
        Wave {
            timed_departures: vec![
                (0, Drones::Simple1),
                (2000, Drones::Simple1),
                (4000, Drones::Simple2),
                (6000, Drones::Simple2),
                (8000, Drones::Simple3),
                (10000, Drones::Simple3),
                (12000, Drones::Simple1),
                (14000, Drones::Simple1),
                (16000, Drones::Simple2),
                (18000, Drones::Simple2),
            ],
            end_delay: WAVES_INTERVAL,
        },
        Wave {
            timed_departures: vec![
                (0, Drones::Simple1),
                (5000, Drones::Medium4),
                (10000, Drones::Big2),
            ],
            end_delay: WAVES_INTERVAL,
        },
        Wave {
            timed_departures: vec![
                (0, Drones::Medium1),
                (4000, Drones::Medium2),
                (8000, Drones::Medium3),
                (12000, Drones::Medium2),
                (16000, Drones::Medium1),
            ],
            end_delay: WAVES_INTERVAL,
        },
        Wave {
            timed_departures: vec![
                (0, Drones::Simple2),
                (4000, Drones::Simple2),
                (10000, Drones::Medium1),
                (15000, Drones::Medium1),
                (20000, Drones::Big2),
                (25000, Drones::Big2),
            ],
            end_delay: WAVES_INTERVAL,
        },
        Wave {
            timed_departures: vec![
                (0, Drones::Simple1),
                (2500, Drones::Simple1),
                (5000, Drones::Simple2),
                (7500, Drones::Simple2),
                (10000, Drones::Simple3),
                (12500, Drones::Simple3),
                (15000, Drones::Simple1),
                (17500, Drones::Simple1),
                (20000, Drones::Simple2),
                (22500, Drones::Simple2),
                (25000, Drones::Simple3),
                (27500, Drones::Simple3),
            ],
            end_delay: WAVES_INTERVAL,
        },
        Wave {
            timed_departures: vec![
                (0, Drones::Big1),
                (8000, Drones::Big2),
                (16000, Drones::Big1),
                (24000, Drones::Big2),
            ],
            end_delay: WAVES_INTERVAL,
        },
    ]
}

pub fn waves_level_4() -> (r: Vec<Wave>)
    ensures
        waves_ok(r@),
        r@.len() == 9,
{
    vec![
        Wave {
            timed_departures: vec![
                (0, Drones::Simple1),
                (2000, Drones::Simple2),
            ],
            end_delay: WAVES_INTERVAL,
        },
        Wave {
            timed_departures: vec![
                (0, Drones::Simple1),
                (2000, Drones::Simple3),
                (4000, Drones::Simple1),
                (6000, Drones::Simple2),
            ],
            end_delay: WAVES_INTERVAL,
        },
        Wave {
            timed_departures: vec![
                (0, Drones::Simple1),
                (2000, Drones::Simple3),
                (4000, Drones::Simple1),
                (6000, Drones::Simple2),
                (8000, Drones::Simple1),
                (10000, Drones::Simple3),
                (12000, Drones::Simple1),
                (14000, Drones::Simple2),
            ],
            end_delay: WAVES_INTERVAL,
        },
        Wave {
            timed_departures: vec![
                (0, Drones::Medium1),
                (8000, Drones::Medium4),
            ],
            end_delay: WAVES_INTERVAL,
        },
        Wave {
            timed_departures: vec![
                (0, Drones::Simple3),
                (2000, Drones::Simple3),
                (12000, Drones::Medium4),
                (16000, Drones::Medium4),
            ],
            end_delay: WAVES_INTERVAL,
        },
        Wave {
            timed_departures: vec![
                (0, Drones::Medium1),
                (4000, Drones::Medium3),
                (8000, Drones::Medium4),
                (12000, Drones::Medium2),
            ],
            end_delay: WAVES_INTERVAL,
        },
        Wave {
            timed_departures: vec![
                (0, Drones::Simple1),
                (2000, Drones::Simple2),
                (4000, Drones::Simple3),
                (6000, Drones::Simple2),
                (8000, Drones::Simple1),
                (20000, Drones::Big1),
            ],
            end_delay: WAVES_INTERVAL,
        },
        Wave {
            timed_departures: vec![
                (0, Drones::Medium4),
                (8000, Drones::Medium3),
                (20000, Drones::Big1),
            ],
            end_delay: WAVES_INTERVAL,
        },
        Wave {
            timed_departures: vec![
                (0, Drones::Big2),
                (10000, Drones::Big1),
            ],
            end_delay: WAVES_INTERVAL,
        },
    ]
}

pub fn waves_level_5() -> (r: Vec<Wave>)
    ensures
        waves_ok(r@),
        r@.len() == 13,
{
    vec![
        Wave {
            timed_departures: vec![
                (0, Drones::Simple1),
                (2000, Drones::Simple2),
            ],
            end_delay: WAVES_INTERVAL,
        },
        Wave {
            timed_departures: vec![
                (0, Drones::Simple1),
                (2000, Drones::Simple3),
                (4000, Drones::Simple1),
                (6000, Drones::Simple2),
            ],
            end_delay: WAVES_INTERVAL,
        },
        Wave {
            timed_departures: vec![
                (0, Drones::Simple1),
                (2000, Drones::Simple1),
                (4000, Drones::Simple1),
                (12000, Drones::Medium4),
            ],
            end_delay: WAVES_INTERVAL,
        },
        Wave {
            timed_departures: vec![
                (0, Drones::Medium1),
                (5000, Drones::Medium3),
                (15000, Drones::Simple1),
                (17000, Drones::Simple2),
                (19000, Drones::Simple3),
                (21000, Drones::Simple2),
            ],
            end_delay: WAVES_INTERVAL,
        },
        Wave {
            timed_departures: vec![
                (0, Drones::Simple2),
                (2500, Drones::Simple1),
                (5000, Drones::Simple2),
                (15000, Drones::Medium1),
                (20000, Drones::Medium3),
                (25000, Drones::Medium3),
                (35000, Drones::Simple1),
                (37500, Drones::Simple2),
                (40000, Drones::Simple3),
            ],
            end_delay: WAVES_INTERVAL,
        },
        Wave {
            timed_departures: vec![
                (0, Drones::Simple2),
                (2500, Drones::Simple1),
                (5000, Drones::Simple2),
                (7500, Drones::Simple1),
                (10000, Drones::Simple2),
                (12500, Drones::Simple1),
                (15000, Drones::Simple2),
                (17500, Drones::Simple1),
                (20000, Drones::Simple2),
                (22500, Drones::Simple1),
            ],
            end_delay: WAVES_INTERVAL,
        },
        Wave {
            timed_departures: vec![
                (0, Drones::Medium1),
                (5000, Drones::Medium2),
                (10000, Drones::Medium3),
                (15000, Drones::Medium4),
                (20000, Drones::Medium1),
                (25000, Drones::Medium2),
                (30000, Drones::Medium3),
                (35000, Drones::Medium4),
            ],
            end_delay: WAVES_INTERVAL,
        },
        Wave {
            timed_departures: vec![
                (0, Drones::Big1),
            ],
            end_delay: WAVES_INTERVAL,
        },
        Wave {
            timed_departures: vec![
                (0, Drones::Medium2),
                (10000, Drones::Big1),
            ],
            end_delay: WAVES_INTERVAL,
        },
        Wave {
            timed_departures: vec![
                (0, Drones::Big2),
                (10000, Drones::Simple1),
                (12000, Drones::Simple2),
                (14000, Drones::Simple3),
                (16000, Drones::Simple2),
                (18000, Drones::Simple3),
            ],
            end_delay: WAVES_INTERVAL,
        },
        Wave {
            timed_departures: vec![
                (0, Drones::Big1),
                (15000, Drones::Medium1),
                (25000, Drones::Medium3),
                (35000, Drones::Medium2),
                (45000, Drones::Medium3),
                (55000, Drones::Medium1),
            ],
            end_delay: WAVES_INTERVAL,
        },
        Wave {
            timed_departures: vec![
                (0, Drones::Big2),
                (20000, Drones::Big1),
                (40000, Drones::Big2),
                (60000, Drones::Big2),
            ],
            end_delay: WAVES_INTERVAL,
        },
        Wave {
            timed_departures: vec![
                (0, Drones::Invader),
            ],
            end_delay: WAVES_INTERVAL,
        },
    ]
}

} // verus!