//! Moments in UTC and the time between them.

use chrono::{DateTime, Utc};
use vstd::prelude::*;

verus! {

/// The earliest second that a moment can have, counted from 1970.
pub const MIN_SECS: i64 = -8_334_601_228_800;

/// The latest second that a moment can have, counted from 1970.
pub const MAX_SECS: i64 = 8_210_266_876_799;

/// A moment in UTC: seconds since 1970 and nanoseconds into that second.
#[derive(Clone, Copy, PartialEq, Eq, Structural, Debug)]
pub struct Timestamp {
    secs: i64,
    nanos: u32,
}

/// A [`Timestamp`] with its parts in the open.
pub ghost struct Moment {
    /// Seconds since 1970.
    pub secs: int,
    /// Nanoseconds into the second; a leap second is the second before it, prolonged.
    pub nanos: int,
}

impl Moment {
    /// Whether the moment lies in the range of dates, and is prolonged only by a leap
    /// second at the end of a minute.
    pub open spec fn valid(self) -> bool {
        &&& MIN_SECS <= self.secs <= MAX_SECS
        &&& 0 <= self.nanos < 2_000_000_000
        &&& self.nanos >= 1_000_000_000 ==> self.secs % 60 == 59
    }

    /// Whether the moment lies in a leap second.
    pub open spec fn leap(self) -> bool {
        self.nanos >= 1_000_000_000
    }

    /// The second of the day.
    pub open spec fn second_of_day(self) -> int {
        self.secs % 86_400
    }

    /// Whether this moment lies after `other` on the clock.
    pub open spec fn after(self, other: Moment) -> bool {
        self.secs > other.secs || (self.secs == other.secs && self.nanos > other.nanos)
    }
}

impl View for Timestamp {
    type V = Moment;

    closed spec fn view(&self) -> Moment {
        Moment { secs: self.secs as int, nanos: self.nanos as int }
    }
}

/// The nanoseconds from `earlier` to `later`. A leap second counts where one of the
/// moments lies in it and the other on a later second of the day.
pub open spec fn nanos_between(later: Moment, earlier: Moment) -> int {
    let leap_secs = if later.second_of_day() > earlier.second_of_day() && earlier.leap() {
        1int
    } else if later.second_of_day() < earlier.second_of_day() && later.leap() {
        -1int
    } else {
        0int
    };
    (later.secs - earlier.secs + leap_secs) * 1_000_000_000 + (later.nanos - earlier.nanos)
}

/// The whole seconds in a number of nanoseconds, rounded towards zero.
pub open spec fn whole_seconds(nanos: int) -> int {
    if nanos >= 0 {
        nanos / 1_000_000_000
    } else {
        -((-nanos) / 1_000_000_000)
    }
}

impl Timestamp {
    #[verifier::type_invariant]
    spec fn in_range(self) -> bool {
        self@.valid()
    }

    /// The moment with the given parts, if there is one.
    pub fn from_parts(secs: i64, nanos: u32) -> (moment: Option<Timestamp>)
        ensures
            match moment {
                Some(m) => m@ == (Moment { secs: secs as int, nanos: nanos as int }) && m@.valid(),
                None => !(Moment { secs: secs as int, nanos: nanos as int }).valid(),
            },
    {
        if secs < MIN_SECS || secs > MAX_SECS || nanos >= 2_000_000_000 {
            return None;
        }
        if nanos >= 1_000_000_000 {
            let shifted: i64 = secs - MIN_SECS;
            assert(MIN_SECS % 60 == 0);
            assert(shifted as int % 60 == secs as int % 60);
            if shifted % 60 != 59 {
                return None;
            }
        }
        Some(Timestamp { secs, nanos })
    }

    /// Seconds since 1970.
    pub fn secs(&self) -> (secs: i64)
        ensures
            secs == self@.secs,
            MIN_SECS <= secs <= MAX_SECS,
    {
        proof {
            use_type_invariant(self);
        }
        self.secs
    }

    /// Nanoseconds into the second.
    pub fn nanos(&self) -> (nanos: u32)
        ensures
            nanos == self@.nanos,
    {
        self.nanos
    }

    /// Whether this moment lies after `other` on the clock.
    pub fn is_after(&self, other: &Timestamp) -> (after: bool)
        ensures
            after == self@.after(other@),
    {
        self.secs > other.secs || (self.secs == other.secs && self.nanos > other.nanos)
    }

    /// Whether this is the same moment as `other`.
    pub fn same(&self, other: &Timestamp) -> (same: bool)
        ensures
            same == (*self == *other),
            same == (self@ == other@),
    {
        *self == *other
    }

    /// The whole seconds from `earlier` to this moment; negative if `earlier` is later
    /// by a second or more.
    pub fn seconds_since(&self, earlier: &Timestamp) -> (secs: i64)
        ensures
            secs == whole_seconds(nanos_between(self@, earlier@)),
    {
        proof {
            use_type_invariant(self);
            use_type_invariant(earlier);
        }
        seconds_between(*self, *earlier)
    }
}

/// `chrono::DateTime::signed_duration_since` on two UTC moments, and
/// `chrono::TimeDelta::num_seconds` of what it returns: the time from `earlier` to
/// `later` in whole seconds, rounded towards zero. `chrono::DateTime::from_timestamp`
/// builds the two moments; it refuses only those that are not valid.
#[verifier::external_body]
fn seconds_between(later: Timestamp, earlier: Timestamp) -> (secs: i64)
    requires
        later@.valid(),
        earlier@.valid(),
    ensures
        secs == whole_seconds(nanos_between(later@, earlier@)),
{
    let later = DateTime::<Utc>::from_timestamp(later.secs, later.nanos).unwrap();
    let earlier = DateTime::<Utc>::from_timestamp(earlier.secs, earlier.nanos).unwrap();
    later.signed_duration_since(earlier).num_seconds()
}

/// `chrono::Utc::now`: the current moment, whatever it is, within the range of dates.
#[verifier::external_body]
fn now() -> (moment: Timestamp)
    ensures
        moment@.valid(),
{
    let now = Utc::now();
    Timestamp { secs: now.timestamp(), nanos: now.timestamp_subsec_nanos() }
}

/// Whether a reading of the system clock gave this moment.
pub closed spec fn read_from_clock(moment: Moment) -> bool {
    exists|reading: Timestamp|
        #[trigger] call_ensures(now, (), reading) && reading@ == moment
}

/// What a clock tells.
fn read<C: Fn() -> Timestamp>(clock: C) -> (reading: Timestamp)
    requires
        call_requires(clock, ()),
    ensures
        call_ensures(clock, (), reading),
{
    clock()
}

/// The current moment, as the system clock tells it.
pub(crate) fn current() -> (moment: Timestamp)
    ensures
        read_from_clock(moment@),
        moment@.valid(),
{
    read(now)
}

/// A moment was read from the clock only if the clock gave it.
proof fn law_clock_gave_the_reading(moment: Moment)
    requires
        read_from_clock(moment),
    ensures
        exists|reading: Timestamp|
            #[trigger] call_ensures(now, (), reading) && reading@ == moment,
        moment.valid(),
{
}

/// Between moments outside leap seconds, the whole seconds are those of the time that has
/// passed, with the fraction left out, and they count backwards if the earlier one is later.
pub proof fn law_seconds_pass_as_on_the_clock(later: Timestamp, earlier: Timestamp, secs: i64)
    requires
        call_ensures(Timestamp::seconds_since, (&later, &earlier), secs),
        later@.nanos < 1_000_000_000,
        earlier@.nanos < 1_000_000_000,
    ensures
        ({
            let passed = (later@.secs * 1_000_000_000 + later@.nanos) - (earlier@.secs
                * 1_000_000_000 + earlier@.nanos);
            &&& passed >= 0 ==> secs * 1_000_000_000 <= passed < (secs + 1) * 1_000_000_000
            &&& passed < 0 ==> (secs - 1) * 1_000_000_000 < passed <= secs * 1_000_000_000
        }),
{
}

/// Seconds counted one way are the negative of those counted the other way, leap seconds or
/// not.
pub proof fn law_seconds_back_and_forth(one: Timestamp, other: Timestamp, there: i64, back: i64)
    requires
        call_ensures(Timestamp::seconds_since, (&one, &other), there),
        call_ensures(Timestamp::seconds_since, (&other, &one), back),
    ensures
        there == -back,
{
}

/// Of two moments one is after the other, or they are the same; a later second is after, and
/// within a second the later fraction is.
pub proof fn law_moments_are_ordered(one: Timestamp, other: Timestamp, after: bool, before: bool)
    requires
        call_ensures(Timestamp::is_after, (&one, &other), after),
        call_ensures(Timestamp::is_after, (&other, &one), before),
    ensures
        one@.secs > other@.secs ==> after && !before,
        one@.secs == other@.secs && one@.nanos > other@.nanos ==> after && !before,
        !after && !before <==> one@.secs == other@.secs && one@.nanos == other@.nanos,
        !(after && before),
{
}

/// Parts make a moment if, and only if, they lie in the range of dates; more than a whole
/// second of nanoseconds is for the last second of a minute only. The moment has these parts.
pub proof fn law_parts_make_a_moment(secs: i64, nanos: u32, moment: Option<Timestamp>)
    requires
        call_ensures(Timestamp::from_parts, (secs, nanos), moment),
    ensures
        moment is Some ==> moment->0@.secs == secs && moment->0@.nanos == nanos,
        -8_334_601_228_800 <= secs <= 8_210_266_876_799 && nanos < 1_000_000_000
            ==> moment is Some,
        moment is Some ==> -8_334_601_228_800 <= secs <= 8_210_266_876_799 && nanos
            < 2_000_000_000,
        nanos >= 1_000_000_000 && moment is Some ==> secs % 60 == 59,
        nanos >= 1_000_000_000 && nanos < 2_000_000_000 && secs % 60 == 59
            && -8_334_601_228_800 <= secs <= 8_210_266_876_799 ==> moment is Some,
{
}

/// The parts of a moment are told as they are, and moments are the same if, and only if, both
/// parts are.
pub proof fn law_parts_of_a_moment(
    one: Timestamp,
    other: Timestamp,
    secs: i64,
    nanos: u32,
    same: bool,
)
    requires
        call_ensures(Timestamp::secs, (&one,), secs),
        call_ensures(Timestamp::nanos, (&one,), nanos),
        call_ensures(Timestamp::same, (&one, &other), same),
    ensures
        secs == one@.secs,
        nanos == one@.nanos,
        same <==> one@.secs == other@.secs && one@.nanos == other@.nanos,
{
}

} // verus!
