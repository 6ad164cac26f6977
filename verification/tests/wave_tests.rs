//! Wave scripts, their flattening, the countdown and its fast-forward rule.

use sabotage_core::drones::Drones;
use sabotage_core::waves::{
    waves_default, waves_level_1, waves_level_2, waves_level_3, waves_level_4, waves_level_5,
    Countdown, Wave, WaveIterator, WaveIteratorElement, WaveTick, WAVES_INTERVAL,
};

fn check_wave(w: &Wave) {
    let mut t = 0u64;
    for (t1, _) in w.timed_departures.iter() {
        assert!(*t1 >= t);
        t = *t1;
    }
}

#[test]
fn ensure_waves_are_sorted() {
    for wave in waves_default().iter() {
        check_wave(wave);
    }
    for wave in waves_level_1().iter() {
        check_wave(wave);
    }
    for wave in waves_level_2().iter() {
        check_wave(wave);
    }
    for wave in waves_level_3().iter() {
        check_wave(wave);
    }
    for wave in waves_level_4().iter() {
        check_wave(wave);
    }
    for wave in waves_level_5().iter() {
        check_wave(wave);
    }
}

/// Flattening yields one release element per authored release plus one
/// wave-advance element per wave, and popping a wave's elements and summing
/// their waits reproduces the wave's authored end-to-end duration.
#[test]
fn wave_flattening_round_trip() {
    let waves = vec![
        Wave {
            timed_departures: vec![(0, Drones::Simple1), (5_000, Drones::Simple2)],
            end_delay: WAVES_INTERVAL,
        },
        Wave {
            timed_departures: vec![
                (0, Drones::Medium1),
                (4_000, Drones::Medium2),
                (9_000, Drones::Big1),
            ],
            end_delay: WAVES_INTERVAL,
        },
    ];
    let it = WaveIterator::from_waves(&waves);
    // 2 + 3 releases, plus one wave-advance element per wave.
    assert_eq!(it.upcoming.len(), 5 + 2);
    let releases = it
        .upcoming
        .iter()
        .filter(|e| matches!(e, WaveIteratorElement::NextDrone(_, _)))
        .count();
    assert_eq!(releases, 5);

    // The queue is reversed: popping from the end walks the script forward.
    let mut elements = it.upcoming.clone();
    let mut per_wave_sums: Vec<u64> = Vec::new();
    let mut sum = 0u64;
    while let Some(e) = elements.pop() {
        match e {
            WaveIteratorElement::NextWave(t) => {
                if sum > 0 {
                    per_wave_sums.push(sum);
                }
                sum = t;
            }
            WaveIteratorElement::NextDrone(_, t) => {
                sum += t;
            }
        }
    }
    per_wave_sums.push(sum);
    // Last authored time plus end delay, per wave.
    assert_eq!(per_wave_sums, vec![5_000 + WAVES_INTERVAL, 9_000 + WAVES_INTERVAL]);
}

#[test]
fn scheduler_releases_in_authored_order() {
    let waves = vec![Wave {
        timed_departures: vec![(0, Drones::Simple1), (5_000, Drones::Big2)],
        end_delay: WAVES_INTERVAL,
    }];
    let mut it = WaveIterator::from_waves(&waves);
    // The opening countdown is two seconds.
    assert_eq!(it.tick(1_999), WaveTick::Waiting);
    assert_eq!(it.tick(1), WaveTick::NewWave);
    // The first release is immediate (authored time zero).
    assert_eq!(it.tick(0), WaveTick::Spawn(Drones::Simple1));
    assert_eq!(it.tick(4_999), WaveTick::Waiting);
    assert_eq!(it.tick(1), WaveTick::Spawn(Drones::Big2));
    // After the end delay the script is exhausted.
    assert_eq!(it.tick(WAVES_INTERVAL), WaveTick::Exhausted);
}

/// Fast-forwarding never lengthens the countdown and never leaves it under
/// the floor.
#[test]
fn fast_forward_monotone_and_floored() {
    let mut c = Countdown::new(10_000);
    c.fast_forward();
    assert_eq!(c.remaining(), 2_000);
    // Idempotent at the floor: below the threshold nothing changes.
    c.fast_forward();
    assert_eq!(c.remaining(), 2_000);

    let mut c2 = Countdown::new(2_100);
    c2.fast_forward();
    assert_eq!(c2.remaining(), 2_000);

    let mut c3 = Countdown::new(2_099);
    c3.fast_forward();
    assert_eq!(c3.remaining(), 2_099);
}

#[test]
fn countdown_expires_once() {
    let mut c = Countdown::new(100);
    assert!(!c.tick(99));
    assert!(c.tick(1));
    assert!(!c.tick(50));
}

#[test]
fn from_level_builds_every_level() {
    for level in 0..=7u8 {
        let it = WaveIterator::from_level(level);
        assert!(it.upcoming.len() > 0);
    }
}
