use vstd::prelude::*;

use chrono::Timelike;

use crate::schedule::is_schedule;
use crate::turn::{is_time_of_day, Turn};

verus! {

/// The index after `i` in a circular sequence of `len` elements.
pub open spec fn spec_next_index(i: int, len: int) -> int {
    if i < len - 1 {
        i + 1
    } else {
        0
    }
}

/// Whether `idx` is the first turn of `s` whose forward distance to
/// `hour:minute` is the least of all turns.
pub open spec fn is_first_nearest(s: Seq<Turn>, hour: int, minute: int, idx: int) -> bool {
    &&& 0 <= idx < s.len()
    &&& forall|j: int|
        0 <= j < s.len() ==> s[idx].spec_distance_to(hour, minute) <= #[trigger] s[j].spec_distance_to(
            hour,
            minute,
        )
    &&& forall|j: int|
        0 <= j < idx ==> s[idx].spec_distance_to(hour, minute) < #[trigger] s[j].spec_distance_to(
            hour,
            minute,
        )
}

/// Whether, at `hour:minute`, the turn at `next` is nearer going forward than
/// the one at `current`: the moment to move on.
pub open spec fn spec_should_advance(
    s: Seq<Turn>,
    current: int,
    next: int,
    hour: int,
    minute: int,
) -> bool {
    s[next].spec_distance_to(hour, minute) < s[current].spec_distance_to(hour, minute)
}

/// The index after `current` in a circular sequence of `len` elements.
pub fn next_index(current: usize, len: usize) -> (r: usize)
    requires
        current < len,
    ensures
        r == spec_next_index(current as int, len as int),
        r < len,
{
    if current < len - 1 {
        current + 1
    } else {
        0
    }
}

/// The turn that is current at `hour:minute`: the one whose time lies the
/// fewest minutes back, i.e. whose forward distance to now is least; the
/// first such turn on a tie.
pub fn current_turn_index(turns: &Vec<Turn>, hour: u8, minute: u8) -> (r: usize)
    requires
        is_schedule(turns@),
        is_time_of_day(hour as int, minute as int),
    ensures
        is_first_nearest(turns@, hour as int, minute as int, r as int),
{
    let mut best: usize = 0;
    let mut best_distance = turns[0].time_past_after_reaching(hour, minute);
    let mut i: usize = 1;
    while i < turns.len()
        invariant
            is_schedule(turns@),
            is_time_of_day(hour as int, minute as int),
            1 <= i <= turns@.len(),
            best < i,
            best_distance == turns@[best as int].spec_distance_to(hour as int, minute as int),
            forall|j: int|
                0 <= j < i ==> best_distance <= #[trigger] turns@[j].spec_distance_to(
                    hour as int,
                    minute as int,
                ),
            forall|j: int|
                0 <= j < best ==> best_distance < #[trigger] turns@[j].spec_distance_to(
                    hour as int,
                    minute as int,
                ),
        decreases turns@.len() - i,
    {
        let d = turns[i].time_past_after_reaching(hour, minute);
        if d < best_distance {
            best = i;
            best_distance = d;
        }
        i = i + 1;
    }
    best
}

/// Relies on chrono's `Local::now` with `Timelike::hour` (0 to 23) and
/// `Timelike::minute` (0 to 59): the local time of day when called.
#[verifier::external_body]
fn local_time_of_day() -> (r: (u8, u8))
    ensures
        is_time_of_day(r.0 as int, r.1 as int),
{
    let now = chrono::Local::now();
    (now.hour() as u8, now.minute() as u8)
}

/// Where a run of the scheduler stands in its schedule: the current turn
/// and the one after it, circularly.
#[derive(Clone, Copy, Debug, PartialEq, Eq, Structural)]
pub struct Cursor {
    /// Index of the current turn.
    pub current: usize,
    /// Index of the turn that comes after the current one.
    pub next: usize,
}

impl Cursor {
    /// The cursor points into a schedule of `len` turns, `next` right after `current`.
    pub open spec fn wf(self, len: int) -> bool {
        &&& 0 <= self.current < len
        &&& self.next == spec_next_index(self.current as int, len)
    }

    /// The cursor of a run that starts at `hour:minute`.
    pub fn start(turns: &Vec<Turn>, hour: u8, minute: u8) -> (r: Cursor)
        requires
            is_schedule(turns@),
            is_time_of_day(hour as int, minute as int),
        ensures
            r.wf(turns@.len() as int),
            is_first_nearest(turns@, hour as int, minute as int, r.current as int),
    {
        let current = current_turn_index(turns, hour, minute);
        Cursor { current, next: next_index(current, turns.len()) }
    }

    /// At `hour:minute`, moves on to the next turn when it is nearer going
    /// forward than the current one; tells whether it moved.
    pub fn advance(&mut self, turns: &Vec<Turn>, hour: u8, minute: u8) -> (r: bool)
        requires
            is_schedule(turns@),
            old(self).wf(turns@.len() as int),
            is_time_of_day(hour as int, minute as int),
        ensures
            final(self).wf(turns@.len() as int),
            r == spec_should_advance(
                turns@,
                old(self).current as int,
                old(self).next as int,
                hour as int,
                minute as int,
            ),
            r ==> final(self).current as int == old(self).next as int,
            !r ==> *final(self) == *old(self),
    {
        let current_turn = &turns[self.current];
        let next_turn = &turns[self.next];
        if next_turn.time_past_after_reaching(hour, minute) < current_turn.time_past_after_reaching(
            hour,
            minute,
        ) {
            self.current = self.next;
            self.next = next_index(self.current, turns.len());
            true
        } else {
            false
        }
    }

    /// The cursor of a run that starts now, by the local clock.
    pub fn start_now(turns: &Vec<Turn>) -> (r: Cursor)
        requires
            is_schedule(turns@),
        ensures
            r.wf(turns@.len() as int),
            exists|hour: int, minute: int|
                is_time_of_day(hour, minute) && is_first_nearest(
                    turns@,
                    hour,
                    minute,
                    r.current as int,
                ),
    {
        let (hour, minute) = local_time_of_day();
        Cursor::start(turns, hour, minute)
    }

    /// Reads the local clock and moves on to the next turn if it is now
    /// nearer going forward than the current one; tells whether it moved.
    pub fn advance_now(&mut self, turns: &Vec<Turn>) -> (r: bool)
        requires
            is_schedule(turns@),
            old(self).wf(turns@.len() as int),
        ensures
            final(self).wf(turns@.len() as int),
            exists|hour: int, minute: int|
                is_time_of_day(hour, minute) && r == spec_should_advance(
                    turns@,
                    old(self).current as int,
                    old(self).next as int,
                    hour,
                    minute,
                ),
            r ==> final(self).current as int == old(self).next as int,
            !r ==> *final(self) == *old(self),
    {
        let (hour, minute) = local_time_of_day();
        self.advance(turns, hour, minute)
    }
}

} // verus!
