//! Time-ordered unique 128-bit identifiers.
//!
//! An identifier pairs a timestamp with a counter. A [`TuidContext`] holds
//! the clock and the identifier issued last; each new identifier is greater
//! than the one before it.

use vstd::prelude::*;
use vstd::bytes::{spec_u64_from_le_bytes, u64_from_le_bytes};
use std::time::{Duration, Instant, SystemTimeError};

verus! {

/// `std::time::Instant`: a reading of the monotonic clock, opaque here.
#[verifier::external_type_specification]
#[verifier::external_body]
pub struct ExInstant(Instant);

/// `std::time::SystemTimeError`: the system clock stands before the moment
/// it was compared with.
#[verifier::external_type_specification]
#[verifier::external_body]
pub struct ExSystemTimeError(SystemTimeError);

/// `getrandom::Error`: the system's random source failed.
#[verifier::external_type_specification]
#[verifier::external_body]
pub struct ExRandomError(getrandom::Error);

/// `getrandom::getrandom` fills `dest` with bytes from the system's random
/// source, or fails. Nothing is claimed of the bytes, nor of when it fails.
pub assume_specification[ getrandom::getrandom ](dest: &mut [u8]) -> (r: Result<
    (),
    getrandom::Error,
>)
;

/// `Instant::now` reads the monotonic clock. Nothing is claimed of the reading.
pub assume_specification[ Instant::now ]() -> (now: Instant)
;

/// `Instant::elapsed` gives the time that has passed since the reading was
/// taken. Nothing is claimed of its amount.
pub assume_specification[ Instant::elapsed ](start: &Instant) -> (passed: Duration)
;

/// `Duration::as_nanos` gives the whole span in nanoseconds. Nothing is
/// claimed of the number.
pub assume_specification[ Duration::as_nanos ](span: &Duration) -> (nanos: u128)
;

/// `SystemTime::elapsed` on `UNIX_EPOCH`: the time since the Unix epoch by
/// the system clock, or an error where that clock is set before 1970.
#[verifier::external_body]
fn time_since_epoch() -> (r: Result<Duration, SystemTimeError>) {
    std::time::UNIX_EPOCH.elapsed()
}

/// Why a context could not be set up.
#[derive(Clone, Copy, PartialEq, Eq, Structural, Debug)]
pub enum TuidError {
    /// The system's random source gave no bytes to seed the counter with.
    NoRandomness,
}

/// A 128-bit identifier: a timestamp in the high half, a counter in the low half.
#[derive(Clone, Copy, PartialEq, Eq, Structural, PartialOrd, Ord, Hash, Debug)]
pub struct Tuid {
    /// Approximate nanoseconds since the Unix epoch.
    pub time_ns: u64,
    /// Incremented for each identifier issued from one context.
    pub inc: u64,
}

/// A clock that counts nanoseconds since the Unix epoch. The system clock is
/// read once, at the start, and the monotonic clock from then on, so that
/// setting the system clock back does not set this one back.
#[derive(Clone, Copy, Debug)]
pub struct Clock {
    epoch_offset_ns: u64,
    start: Instant,
}

impl Clock {
    /// The count that the clock started from: the nanoseconds between the
    /// Unix epoch and the start of the clock.
    pub closed spec fn epoch_offset(&self) -> u64 {
        self.epoch_offset_ns
    }

    /// The reading of the monotonic clock that was taken at the start.
    pub closed spec fn started(&self) -> Instant {
        self.start
    }

    /// What the clock reads once `passed` nanoseconds have gone by since its
    /// start: the sum of the two counts, in 64 bits.
    pub open spec fn spec_reading_after(&self, passed: int) -> int {
        (self.epoch_offset() + passed % 0x1_0000_0000_0000_0000) % 0x1_0000_0000_0000_0000
    }

    /// Starts a clock at the present moment. Where the system clock is set
    /// before 1970 the clock counts from zero.
    pub fn start() -> (clock: Clock) {
        let since_epoch_nanos: Option<u128> = match time_since_epoch() {
            Ok(since_epoch) => Some(since_epoch.as_nanos()),
            Err(_) => None,
        };
        Clock::starting_at(since_epoch_nanos, Instant::now())
    }

    /// The clock that starts at the reading `start` of the monotonic clock,
    /// given what the system clock said at that moment: the nanoseconds since
    /// the Unix epoch, of which the clock keeps the low 64 bits, or `None`
    /// where the system clock is set before 1970, and the clock counts from
    /// zero.
    pub fn starting_at(since_epoch_nanos: Option<u128>, start: Instant) -> (clock: Clock)
        ensures
            clock.started() == start,
            clock.epoch_offset() == match since_epoch_nanos {
                Some(nanos) => nanos % 0x1_0000_0000_0000_0000,
                None => 0,
            },
    {
        let epoch_offset_ns: u64 = match since_epoch_nanos {
            Some(nanos) => nanos_as_u64(nanos),
            None => 0,
        };
        Clock { epoch_offset_ns, start }
    }

    /// What the clock reads once `passed` nanoseconds have gone by since its
    /// start. The count wraps around where it would pass 64 bits.
    pub fn reading_after(&self, passed: u128) -> (now: u64)
        ensures
            now == self.spec_reading_after(passed as int),
    {
        self.epoch_offset_ns.wrapping_add(nanos_as_u64(passed))
    }

    /// The count at the present moment: what the clock reads after the time
    /// that the monotonic clock says has gone by since its start.
    pub fn nanos_since_epoch(&self) -> (now: u64) {
        self.reading_after(self.start.elapsed().as_nanos())
    }
}

/// The low 64 bits of a count of nanoseconds.
pub fn nanos_as_u64(nanos: u128) -> (low: u64)
    ensures
        low == nanos % 0x1_0000_0000_0000_0000,
{
    let low: u128 = nanos & 0xffff_ffff_ffff_ffff;
    assert(low == nanos % 0x1_0000_0000_0000_0000 && low <= 0xffff_ffff_ffff_ffff) by (bit_vector)
        requires
            low == nanos & 0xffff_ffff_ffff_ffff,
    ;
    low as u64
}

/// The counter that a context starts from, given 64 random bits: the bits
/// with the topmost cleared, which leaves the counter room to grow.
pub fn seed_counter(random: u64) -> (inc: u64)
    ensures
        inc == random % 0x8000_0000_0000_0000,
        inc <= 0x7fff_ffff_ffff_ffff,
{
    let inc: u64 = random & !(1_u64 << 63);
    assert(inc == random % 0x8000_0000_0000_0000 && inc <= 0x7fff_ffff_ffff_ffff) by (bit_vector)
        requires
            inc == random & !(1_u64 << 63),
    ;
    inc
}

/// Sixty-four bits from the system's random source: what `u64_of_filled`
/// makes of a buffer of eight bytes that the source was asked to fill.
pub fn random_u64() -> (r: Result<u64, TuidError>) {
    let mut bytes: [u8; 8] = [0_u8; 8];
    let filled: Result<(), getrandom::Error> = getrandom::getrandom(&mut bytes);
    u64_of_filled(filled, bytes)
}

/// The number that a buffer holds after the random source was asked to fill
/// it: its eight bytes read in little-endian order where the source filled
/// it, `NoRandomness` where the source failed.
pub fn u64_of_filled(filled: Result<(), getrandom::Error>, bytes: [u8; 8]) -> (r: Result<
    u64,
    TuidError,
>)
    ensures
        r == match filled {
            Ok(_) => Ok::<u64, TuidError>(spec_u64_from_le_bytes(bytes@)),
            Err(_) => Err::<u64, TuidError>(TuidError::NoRandomness),
        },
{
    match filled {
        Ok(()) => Ok(u64_from_le_bytes(bytes.as_slice())),
        Err(_) => Err(TuidError::NoRandomness),
    }
}

/// The state that identifiers are issued from: a clock, and the identifier
/// issued last.
#[derive(Clone, Copy, Debug)]
pub struct TuidContext {
    clock: Clock,
    latest: Tuid,
}

impl TuidContext {
    /// The identifier issued last; before the first, the one the context
    /// started from.
    pub closed spec fn latest(&self) -> Tuid {
        self.latest
    }

    /// The clock that the context reads.
    pub closed spec fn clock(&self) -> Clock {
        self.clock
    }

    /// A context with a clock started now and a counter seeded from the
    /// system's random source: what `seeded` makes of the clock, its first
    /// reading and the random bits. Fails where the source gives none.
    pub fn new() -> (r: Result<TuidContext, TuidError>)
        ensures
            r is Ok ==> (r->Ok_0).latest().inc <= 0x7fff_ffff_ffff_ffff,
    {
        let random: Result<u64, TuidError> = random_u64();
        let clock: Clock = Clock::start();
        let read_ns: u64 = clock.nanos_since_epoch();
        TuidContext::seeded(clock, read_ns, random)
    }

    /// The context that starts on `clock` when the clock reads `read_ns` and
    /// the random source has given `random`: it starts from the identifier
    /// with that time and, as its counter, the random bits with the topmost
    /// cleared. Fails as the random source failed.
    pub fn seeded(clock: Clock, read_ns: u64, random: Result<u64, TuidError>) -> (r: Result<
        TuidContext,
        TuidError,
    >)
        ensures
            r is Ok <==> random is Ok,
            r is Err ==> r->Err_0 == random->Err_0,
            r is Ok ==> {
                &&& (r->Ok_0).clock() == clock
                &&& (r->Ok_0).latest().time_ns == read_ns
                &&& (r->Ok_0).latest().inc == random->Ok_0 % 0x8000_0000_0000_0000
            },
    {
        match random {
            Ok(bits) => Ok(
                TuidContext { clock, latest: Tuid { time_ns: read_ns, inc: seed_counter(bits) } },
            ),
            Err(e) => Err(e),
        }
    }

    /// A context on the given clock, its counter seeded from `random`.
    pub fn with_seed(clock: Clock, random: u64) -> (ctx: TuidContext)
        ensures
            ctx.clock() == clock,
            ctx.latest().inc == random % 0x8000_0000_0000_0000,
    {
        let time_ns: u64 = clock.nanos_since_epoch();
        TuidContext { clock, latest: Tuid { time_ns, inc: seed_counter(random) } }
    }

    /// A context on the given clock that continues after `latest`.
    pub fn resume(clock: Clock, latest: Tuid) -> (ctx: TuidContext)
        ensures
            ctx.clock() == clock,
            ctx.latest() == latest,
    {
        TuidContext { clock, latest }
    }

    /// The identifier issued last.
    pub fn last(&self) -> (t: Tuid)
        ensures
            t == self.latest(),
    {
        self.latest
    }

    /// Issues the identifier that follows the last one when the clock reads
    /// `read_ns`: it has the next value of the counter and bears the time
    /// read, or the time of the last identifier where the clock reads less.
    pub fn issue_at(&mut self, read_ns: u64) -> (new: Tuid)
        requires
            old(self).latest().inc < u64::MAX,
        ensures
            final(self).latest() == new,
            new.inc == old(self).latest().inc + 1,
            new.time_ns == if read_ns < old(self).latest().time_ns {
                old(self).latest().time_ns
            } else {
                read_ns
            },
            old(self).latest().precedes(new),
            old(self).latest().spec_as_u128() < new.spec_as_u128(),
    {
        let now_ns: u64 = if read_ns < self.latest.time_ns {
            self.latest.time_ns
        } else {
            read_ns
        };
        let new: Tuid = Tuid::next(self.latest, now_ns);
        proof {
            lemma_precedes_as_u128(self.latest, new);
        }
        self.latest = new;
        new
    }
}

impl Tuid {
    /// All zeroes: the least identifier.
    pub fn zero() -> (t: Tuid)
        ensures
            t.time_ns == 0,
            t.inc == 0,
    {
        Tuid { time_ns: 0, inc: 0 }
    }

    /// All ones: the greatest identifier.
    pub fn max() -> (t: Tuid)
        ensures
            t.time_ns == u64::MAX,
            t.inc == u64::MAX,
    {
        Tuid { time_ns: u64::MAX, inc: u64::MAX }
    }

    /// The identifier as a number: the timestamp shifted above the counter.
    pub open spec fn spec_as_u128(self) -> int {
        self.time_ns as int * 0x1_0000_0000_0000_0000 + self.inc as int
    }

    /// Whether this identifier comes before `other`: by timestamp, then by counter.
    pub open spec fn precedes(self, other: Tuid) -> bool {
        self.time_ns < other.time_ns || (self.time_ns == other.time_ns && self.inc < other.inc)
    }

    /// The identifier that follows `latest` at the time `now_ns`: it bears
    /// that time and the next value of the counter.
    pub fn next(latest: Tuid, now_ns: u64) -> (new: Tuid)
        requires
            latest.time_ns <= now_ns,
            latest.inc < u64::MAX,
        ensures
            new.time_ns == now_ns,
            new.inc == latest.inc + 1,
            latest.precedes(new),
    {
        Tuid { time_ns: now_ns, inc: latest.inc + 1 }
    }

    /// Issues a new identifier from `ctx`: greater than every one issued from
    /// it before, with the next value of the counter and the present time, or
    /// the time of the last identifier where the clock reads less than that.
    pub fn random(ctx: &mut TuidContext) -> (new: Tuid)
        requires
            old(ctx).latest().inc < u64::MAX,
        ensures
            final(ctx).latest() == new,
            new.inc == old(ctx).latest().inc + 1,
            new.time_ns >= old(ctx).latest().time_ns,
            old(ctx).latest().precedes(new),
            old(ctx).latest().spec_as_u128() < new.spec_as_u128(),
    {
        let read_ns: u64 = ctx.clock.nanos_since_epoch();
        ctx.issue_at(read_ns)
    }

    /// The identifier as one 128-bit number, ordered as the identifiers are.
    pub fn as_u128(&self) -> (r: u128)
        ensures
            r as int == self.spec_as_u128(),
    {
        let hi: u128 = self.time_ns as u128;
        let lo: u128 = self.inc as u128;
        assert((hi << 64) | lo == hi * 0x1_0000_0000_0000_0000 + lo) by (bit_vector)
            requires
                hi <= 0xffff_ffff_ffff_ffff,
                lo <= 0xffff_ffff_ffff_ffff,
        ;
        (hi << 64) | lo
    }

    /// The timestamp half of the identifier.
    pub fn nanoseconds_since_epoch(&self) -> (r: u64)
        ensures
            r == self.time_ns,
    {
        self.time_ns
    }
}

/// Identifiers are ordered as their numbers are.
pub proof fn lemma_precedes_as_u128(a: Tuid, b: Tuid)
    ensures
        a.precedes(b) <==> a.spec_as_u128() < b.spec_as_u128(),
        a == b <==> a.spec_as_u128() == b.spec_as_u128(),
{
}

} // verus!
