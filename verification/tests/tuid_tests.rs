use re_query::tuid::{nanos_as_u64, seed_counter, u64_of_filled};
use re_query::{Clock, Tuid, TuidContext, TuidError};
use std::collections::{BTreeSet, HashSet};
use std::time::Instant;

fn is_sorted<T>(data: &[T]) -> bool
where
    T: Ord,
{
    data.windows(2).all(|w| w[0] <= w[1])
}

#[test]
fn test_tuid() {
    let mut ctx = TuidContext::new().unwrap();

    let num = 100_000;
    let ids: Vec<Tuid> = (0..num).map(|_| Tuid::random(&mut ctx)).collect();
    assert!(is_sorted(&ids));
    assert_eq!(ids.iter().cloned().collect::<HashSet::<Tuid>>().len(), num);
    assert_eq!(ids.iter().cloned().collect::<BTreeSet::<Tuid>>().len(), num);
}

#[test]
fn as_u128_puts_the_time_above_the_counter() {
    let t = Tuid {
        time_ns: 1,
        inc: 2,
    };
    assert_eq!(t.as_u128(), (1_u128 << 64) | 2);
    assert_eq!(t.as_u128(), 18446744073709551618_u128);

    let t = Tuid {
        time_ns: 0x0123_4567_89ab_cdef,
        inc: 0xfedc_ba98_7654_3210,
    };
    assert_eq!(t.as_u128(), 0x0123_4567_89ab_cdef_fedc_ba98_7654_3210_u128);
}

#[test]
fn zero_and_max_are_the_bounds() {
    assert_eq!(Tuid::zero().as_u128(), 0);
    assert_eq!(Tuid::max().as_u128(), u128::MAX);
    assert_eq!(Tuid::zero().nanoseconds_since_epoch(), 0);
    assert_eq!(Tuid::max().nanoseconds_since_epoch(), u64::MAX);
    assert!(Tuid::zero() < Tuid::max());
}

#[test]
fn nanoseconds_since_epoch_is_the_time_half() {
    let t = Tuid {
        time_ns: 1_700_000_000_000_000_000,
        inc: 7,
    };
    assert_eq!(t.nanoseconds_since_epoch(), 1_700_000_000_000_000_000);
}

#[test]
fn next_bears_the_given_time_and_the_next_count() {
    let latest = Tuid {
        time_ns: 100,
        inc: 41,
    };
    let new = Tuid::next(latest, 250);
    assert_eq!(
        new,
        Tuid {
            time_ns: 250,
            inc: 42
        }
    );
    assert!(latest < new);

    let same_time = Tuid::next(latest, 100);
    assert_eq!(
        same_time,
        Tuid {
            time_ns: 100,
            inc: 42
        }
    );
    assert!(latest < same_time);
    assert!(latest.as_u128() < same_time.as_u128());
}

#[test]
fn order_of_identifiers_is_the_order_of_their_numbers() {
    let a = Tuid {
        time_ns: 1,
        inc: u64::MAX,
    };
    let b = Tuid {
        time_ns: 2,
        inc: 0,
    };
    assert!(a < b);
    assert!(a.as_u128() < b.as_u128());
}

#[test]
fn seed_counter_clears_the_top_bit() {
    assert_eq!(seed_counter(u64::MAX), 0x7fff_ffff_ffff_ffff);
    assert_eq!(seed_counter(0x8000_0000_0000_0005), 5);
    assert_eq!(seed_counter(12345), 12345);
    assert_eq!(seed_counter(0), 0);
}

#[test]
fn nanos_as_u64_keeps_the_low_bits() {
    assert_eq!(nanos_as_u64(0), 0);
    assert_eq!(nanos_as_u64(1_700_000_000_000_000_000), 1_700_000_000_000_000_000);
    assert_eq!(nanos_as_u64(u64::MAX as u128), u64::MAX);
    assert_eq!(nanos_as_u64((1_u128 << 64) + 9), 9);
}

#[test]
fn a_new_context_leaves_the_counter_room() {
    let ctx = TuidContext::new().unwrap();
    assert!(ctx.last().inc <= 0x7fff_ffff_ffff_ffff);
    let seeded = TuidContext::with_seed(Clock::start(), u64::MAX);
    assert_eq!(seeded.last().inc, 0x7fff_ffff_ffff_ffff);
}

#[test]
fn random_counts_up_by_one() {
    let mut ctx = TuidContext::with_seed(Clock::start(), 10);
    let before = ctx.last();
    assert_eq!(before.inc, 10);
    let a = Tuid::random(&mut ctx);
    let b = Tuid::random(&mut ctx);
    assert_eq!(a.inc, 11);
    assert_eq!(b.inc, 12);
    assert_eq!(ctx.last(), b);
    assert!(before < a);
    assert!(a < b);
    assert!(before.time_ns <= a.time_ns);
    assert!(a.time_ns <= b.time_ns);
}

#[test]
fn random_never_issues_an_earlier_time_than_the_last() {
    let far_ahead = Tuid {
        time_ns: u64::MAX - 1,
        inc: 3,
    };
    let mut ctx = TuidContext::resume(Clock::start(), far_ahead);
    let new = Tuid::random(&mut ctx);
    assert!(new.time_ns >= far_ahead.time_ns);
    assert_eq!(new.inc, 4);
    assert!(far_ahead < new);
}

#[test]
fn the_clock_reads_a_time_after_the_epoch_and_does_not_run_back() {
    let clock = Clock::start();
    let a = clock.nanos_since_epoch();
    let b = clock.nanos_since_epoch();
    assert!(a > 1_000_000_000_000_000_000);
    assert!(a <= b);
}

#[test]
fn random_u64_gives_different_numbers() {
    let a = re_query::tuid::random_u64().unwrap();
    let b = re_query::tuid::random_u64().unwrap();
    let c = re_query::tuid::random_u64().unwrap();
    assert!(a != b || b != c);
}

#[test]
fn issue_at_keeps_the_later_of_the_two_times() {
    let start = Tuid {
        time_ns: 100,
        inc: 5,
    };
    let mut ctx = TuidContext::resume(Clock::start(), start);
    assert_eq!(ctx.last(), start);
    let a = ctx.issue_at(50);
    assert_eq!(
        a,
        Tuid {
            time_ns: 100,
            inc: 6
        }
    );
    let b = ctx.issue_at(100);
    assert_eq!(
        b,
        Tuid {
            time_ns: 100,
            inc: 7
        }
    );
    let c = ctx.issue_at(200);
    assert_eq!(
        c,
        Tuid {
            time_ns: 200,
            inc: 8
        }
    );
    assert_eq!(ctx.last(), c);
    assert!(start < a && a < b && b < c);
    assert!(a.as_u128() < b.as_u128() && b.as_u128() < c.as_u128());
}

#[test]
fn the_clock_adds_the_time_passed_to_its_start() {
    let clock = Clock::start();
    let start = clock.reading_after(0);
    assert_eq!(clock.reading_after(5), start.wrapping_add(5));
    assert_eq!(
        clock.reading_after(1_000_000_000),
        start.wrapping_add(1_000_000_000)
    );
    assert_eq!(clock.reading_after((1_u128 << 64) + 7), start.wrapping_add(7));
    assert_eq!(
        clock.reading_after(u64::MAX as u128),
        start.wrapping_add(u64::MAX)
    );
}

#[test]
fn a_filled_buffer_is_read_in_little_endian_order() {
    assert_eq!(
        u64_of_filled(Ok(()), [1, 2, 3, 4, 5, 6, 7, 8]),
        Ok(0x0807_0605_0403_0201)
    );
    assert_eq!(u64_of_filled(Ok(()), [0; 8]), Ok(0));
    assert_eq!(u64_of_filled(Ok(()), [0xff; 8]), Ok(u64::MAX));
    assert_eq!(
        u64_of_filled(Ok(()), [0, 0, 0, 0, 0, 0, 0, 0x80]),
        Ok(1_u64 << 63)
    );
}

#[test]
fn a_failed_random_source_gives_no_randomness() {
    assert_eq!(
        u64_of_filled(Err(getrandom::Error::UNSUPPORTED), [1, 2, 3, 4, 5, 6, 7, 8]),
        Err(TuidError::NoRandomness)
    );
    let clock = Clock::start();
    assert_eq!(
        TuidContext::seeded(clock, 5, Err(TuidError::NoRandomness)).err(),
        Some(TuidError::NoRandomness)
    );
}

#[test]
fn a_clock_starts_from_the_low_bits_of_the_time_since_the_epoch() {
    let now = Instant::now();
    assert_eq!(Clock::starting_at(Some(5), now).reading_after(0), 5);
    assert_eq!(Clock::starting_at(Some(5), now).reading_after(3), 8);
    assert_eq!(
        Clock::starting_at(Some(1_700_000_000_000_000_000), now).reading_after(0),
        1_700_000_000_000_000_000
    );
    assert_eq!(
        Clock::starting_at(Some((1_u128 << 64) + 9), now).reading_after(0),
        9
    );
    assert_eq!(
        Clock::starting_at(Some(u64::MAX as u128), now).reading_after(2),
        1
    );
}

#[test]
fn a_clock_started_before_the_epoch_counts_from_zero() {
    let clock = Clock::starting_at(None, Instant::now());
    assert_eq!(clock.reading_after(0), 0);
    assert_eq!(clock.reading_after(41), 41);
    let read = clock.nanos_since_epoch();
    assert!(read < 1_000_000_000_000_000_000);
}

#[test]
fn a_seeded_context_starts_from_the_reading_and_the_random_bits() {
    let clock = Clock::start();
    let ctx = TuidContext::seeded(clock, 77, Ok(u64::MAX)).unwrap();
    assert_eq!(
        ctx.last(),
        Tuid {
            time_ns: 77,
            inc: 0x7fff_ffff_ffff_ffff
        }
    );
    let ctx = TuidContext::seeded(clock, 0, Ok(12)).unwrap();
    assert_eq!(
        ctx.last(),
        Tuid {
            time_ns: 0,
            inc: 12
        }
    );
    let mut ctx = TuidContext::seeded(clock, u64::MAX, Ok(0x8000_0000_0000_0001)).unwrap();
    assert_eq!(
        ctx.last(),
        Tuid {
            time_ns: u64::MAX,
            inc: 1
        }
    );
    assert_eq!(
        ctx.issue_at(3),
        Tuid {
            time_ns: u64::MAX,
            inc: 2
        }
    );
}
