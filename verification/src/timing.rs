//! Representation of `t=`, `r=` and `z=` fields of a session description
//! (RFC 4566, sections 5.9 through 5.11): start/stop times, repeat
//! intervals and durations, and time zone adjustments, with their exact
//! wire-text serialization.

use vstd::prelude::*;
use vstd::string::StringExecFns;

use crate::text::{dec_rep, dec_rep_i, push_char, u64_to_dec, i64_to_dec};

verus! {

/// Representation of a time in seconds since 1900 (the NTP epoch), as used
/// by the `t=` and `z=` fields.
#[derive(Clone, Copy, Debug, Default, Eq, PartialEq, Structural)]
pub struct Time(u64);

impl View for Time {
    type V = u64;

    closed spec fn view(&self) -> u64 {
        self.0
    }
}

impl Time {
    /// Wraps a second count since the NTP epoch.
    pub fn new(secs: u64) -> (r: Time)
        ensures
            r@ == secs,
    {
        Time(secs)
    }

    /// The wrapped second count.
    pub fn get(self) -> (r: u64)
        ensures
            r == self@,
    {
        self.0
    }

    /// Indicate whether this [`Time`] equals to its default zero value.
    pub fn iz_zero(self) -> (r: bool)
        ensures
            r == (self@ == 0),
    {
        self.0 == 0
    }
}

/// Start and stop times of a session (the `t=` field payload).
#[derive(Clone, Copy, Debug, Eq, PartialEq, Structural)]
pub struct Timing {
    /// Start time of a session.
    pub start_time: Time,
    /// Stop time of a session; zero means the session is not bounded.
    pub stop_time: Time,
}

impl Timing {
    /// Wire text of this timing: `<start-time> <stop-time>`, both decimal.
    pub open spec fn wire(self) -> Seq<char> {
        dec_rep(self.start_time@ as nat) + seq![' '] + dec_rep(self.stop_time@ as nat)
    }

    /// Renders this timing as the exact payload of a `t=` line.
    pub fn marshal(&self) -> (r: String)
        ensures
            r@ == self.wire(),
    {
        let mut s = u64_to_dec(self.start_time.get());
        push_char(&mut s, ' ');
        let r = s.concat(u64_to_dec(self.stop_time.get()).as_str());
        proof {
            assert(r@ =~= self.wire());
        }
        r
    }

    /// Indicates whether this [`Timing`] is unbounded: the stop time is
    /// zero, so the session has no scheduled end.
    pub fn is_unbounded(self) -> (r: bool)
        ensures
            r == (self.stop_time@ == 0),
    {
        self.stop_time.iz_zero()
    }

    /// Indicates whether this [`Timing`] is permanent: both the start and
    /// the stop time are zero.
    pub fn is_permanent(self) -> (r: bool)
        ensures
            r == (self.start_time@ == 0 && self.stop_time@ == 0),
    {
        self.start_time.iz_zero() && self.stop_time.iz_zero()
    }
}

/// Representation of a [`RepeatTime`] duration in seconds.
#[derive(Clone, Copy, Debug, Default, Eq, PartialEq, Structural)]
pub struct Duration(u64);

impl View for Duration {
    type V = u64;

    closed spec fn view(&self) -> u64 {
        self.0
    }
}

/// Names the seconds that a [`core::time::Duration`] value holds; the
/// trusted wrapper below states its result through this name.
pub uninterp spec fn std_duration_secs(d: core::time::Duration) -> u64;

impl Duration {
    /// Wraps a second count.
    pub fn new(secs: u64) -> (r: Duration)
        ensures
            r@ == secs,
    {
        Duration(secs)
    }

    /// The wrapped second count.
    pub fn get(self) -> (r: u64)
        ensures
            r == self@,
    {
        self.0
    }

    /// Indicates whether this [`Duration`] equals to its default zero value.
    pub fn is_zero(self) -> (r: bool)
        ensures
            r == (self@ == 0),
    {
        self.0 == 0
    }

    /// Converts this [`Duration`] to a value of [`core::time::Duration`].
    ///
    /// Relies on `std::time::Duration::from_secs`: the result holds exactly
    /// the given whole-second count.
    #[verifier::external_body]
    pub fn to_std(self) -> (r: core::time::Duration)
        ensures
            std_duration_secs(r) == self@,
    {
        core::time::Duration::from_secs(self.0)
    }
}

/// Representation of a [`RepeatTime`]/[`TimeZone`] offset in seconds,
/// relative to the owning timing's start time.
#[derive(Clone, Copy, Debug, Default, Eq, PartialEq, Structural)]
pub struct Offset(i64);

impl View for Offset {
    type V = i64;

    closed spec fn view(&self) -> i64 {
        self.0
    }
}

impl Offset {
    /// Wraps a signed second count.
    pub fn new(secs: i64) -> (r: Offset)
        ensures
            r@ == secs,
    {
        Offset(secs)
    }

    /// The wrapped signed second count.
    pub fn get(self) -> (r: i64)
        ensures
            r == self@,
    {
        self.0
    }

    /// Indicates whether this [`Offset`] equals to its default zero value.
    pub fn is_zero(self) -> (r: bool)
        ensures
            r == (self@ == 0),
    {
        self.0 == 0
    }
}

/// Wire text of a list of offsets: a leading space before each entry.
pub open spec fn offsets_wire(offs: Seq<Offset>) -> Seq<char>
    decreases offs.len(),
{
    if offs.len() == 0 {
        Seq::<char>::empty()
    } else {
        offsets_wire(offs.drop_last()) + seq![' '] + dec_rep_i(offs.last()@ as int)
    }
}

/// Representation of a repeat time for repeated scheduled sessions (the
/// `r=` field payload).
#[derive(Clone, Debug, Eq, PartialEq)]
pub struct RepeatTime {
    /// Repeat interval of a session.
    pub repeat_interval: Duration,
    /// Active duration of a session.
    pub active_duration: Duration,
    /// Offsets from the owning [`Timing`]'s start time.
    pub offsets: Vec<Offset>,
}

impl RepeatTime {
    /// Wire text of this repeat time: the active duration is emitted
    /// before the repeat interval, the token order interoperating peers
    /// expect here.
    pub open spec fn wire(self) -> Seq<char> {
        dec_rep(self.active_duration@ as nat) + seq![' '] + dec_rep(self.repeat_interval@ as nat)
            + offsets_wire(self.offsets@)
    }

    /// Renders this repeat time as the exact payload of an `r=` line.
    pub fn marshal(&self) -> (r: String)
        ensures
            r@ == self.wire(),
    {
        let mut s = u64_to_dec(self.active_duration.get());
        push_char(&mut s, ' ');
        s.append(u64_to_dec(self.repeat_interval.get()).as_str());
        let ghost head = s@;
        let mut i: usize = 0;
        while i < self.offsets.len()
            invariant
                0 <= i <= self.offsets@.len(),
                s@ == head + offsets_wire(self.offsets@.take(i as int)),
            decreases self.offsets@.len() - i,
        {
            push_char(&mut s, ' ');
            s.append(i64_to_dec(self.offsets[i].get()).as_str());
            proof {
                let pre = self.offsets@.take(i as int);
                let post = self.offsets@.take((i + 1) as int);
                assert(post.drop_last() =~= pre);
                assert(post.last() == self.offsets@[i as int]);
                assert(s@ =~= head + offsets_wire(post));
            }
            i = i + 1;
        }
        proof {
            assert(self.offsets@.take(self.offsets@.len() as int) =~= self.offsets@);
            assert(s@ =~= self.wire());
        }
        s
    }
}

/// Representation of a time zone adjustment for repeated session
/// scheduling (one entry of the `z=` field).
#[derive(Clone, Copy, Debug, Eq, PartialEq, Structural)]
pub struct TimeZone {
    /// Adjustment time base by which the session's repeat times are
    /// calculated considering the [`TimeZone::offset`].
    pub adjustment_time: Time,
    /// Offset to be applied after the [`TimeZone::adjustment_time`] base.
    pub offset: Offset,
}

impl TimeZone {
    /// Wire text of this adjustment: `<adjustment-time> <offset>`.
    pub open spec fn wire(self) -> Seq<char> {
        dec_rep(self.adjustment_time@ as nat) + seq![' '] + dec_rep_i(self.offset@ as int)
    }

    /// Renders this adjustment as one entry of a `z=` line.
    pub fn marshal(&self) -> (r: String)
        ensures
            r@ == self.wire(),
    {
        let mut s = u64_to_dec(self.adjustment_time.get());
        push_char(&mut s, ' ');
        let r = s.concat(i64_to_dec(self.offset.get()).as_str());
        proof {
            assert(r@ =~= self.wire());
        }
        r
    }
}

/// One `t=` field with its `r=` entries: repeat intervals and durations of
/// a scheduled session, in the order they were supplied.
#[derive(Clone, Debug)]
pub struct Description {
    /// Start and stop times of a session.
    pub timing: Timing,
    /// Repeat intervals and durations of a scheduled session.
    pub repeat_times: Vec<RepeatTime>,
}

} // verus!
