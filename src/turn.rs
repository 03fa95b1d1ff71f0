use vstd::prelude::*;

verus! {

/// Minutes in one day; stamps of normalized times lie below it.
pub const MINUTES_PER_DAY: u16 = 1440;

/// An appearance mode. `Dark` and `Night` select the dark appearance,
/// `Light` and `Day` the light one.
#[derive(Clone, Copy, Debug, PartialEq, Eq, Structural)]
pub enum Mode {
    Dark,
    Night,
    Light,
    Day,
}

impl Mode {
    pub open spec fn spec_is_light(self) -> bool {
        self is Light || self is Day
    }

    /// Whether this mode belongs to the light appearance class.
    pub fn is_light(&self) -> (r: bool)
        ensures
            r == self.spec_is_light(),
    {
        match self {
            Mode::Light | Mode::Day => true,
            Mode::Dark | Mode::Night => false,
        }
    }

    /// The integer written to the settings store for this mode:
    /// 1 for the light class, 0 for the dark class.
    pub fn light_theme_value(&self) -> (r: u32)
        ensures
            r == (if self.spec_is_light() { 1u32 } else { 0u32 }),
    {
        if self.is_light() {
            1
        } else {
            0
        }
    }
}

/// A scheduled transition: at `hour:minute` the mode becomes `mode`.
#[derive(Clone, Copy, Debug, PartialEq, Eq, Structural)]
pub struct Turn {
    pub mode: Mode,
    pub hour: u8,
    pub minute: u8,
}

/// Minutes since midnight of `hour:minute`.
pub open spec fn stamp_of(hour: int, minute: int) -> int {
    hour * 60 + minute
}

/// Whether `hour:minute` is a time of day, with 24 not accepted as an hour.
pub open spec fn is_time_of_day(hour: int, minute: int) -> bool {
    0 <= hour < 24 && 0 <= minute < 60
}

/// Minutes from stamp `from` forward to stamp `to`, wrapping through midnight.
pub open spec fn forward_distance(from: int, to: int) -> int {
    (to - from) % (MINUTES_PER_DAY as int)
}

/// Minutes since midnight of `hour:minute`.
pub fn stamp(hour: u8, minute: u8) -> (r: u16)
    ensures
        r == stamp_of(hour as int, minute as int),
{
    (hour as u16) * 60 + (minute as u16)
}

impl Turn {
    pub open spec fn spec_stamp(self) -> int {
        stamp_of(self.hour as int, self.minute as int)
    }

    /// Whether the turn's time is a time of day (24 already mapped to 0).
    pub open spec fn is_normalized(self) -> bool {
        is_time_of_day(self.hour as int, self.minute as int)
    }

    /// Whether the turn's time is acceptable input: hour at most 24, minute below 60.
    pub open spec fn spec_in_range(self) -> bool {
        self.hour <= 24 && self.minute < 60
    }

    /// Minutes from this turn forward to the time of day `hour:minute`.
    pub open spec fn spec_distance_to(self, hour: int, minute: int) -> int {
        forward_distance(self.spec_stamp(), stamp_of(hour, minute))
    }

    /// The stamp of this turn's time, the key by which turns are ordered and identified.
    pub fn stamp(&self) -> (r: u16)
        ensures
            r == self.spec_stamp(),
    {
        stamp(self.hour, self.minute)
    }

    /// Whether the turn's time is acceptable input: hour at most 24, minute below 60.
    pub fn in_range(&self) -> (r: bool)
        ensures
            r == self.spec_in_range(),
    {
        self.hour <= 24 && self.minute < 60
    }

    /// Minutes that pass from this turn's time until `hour:minute` is reached,
    /// going forward through midnight; 0 when the two times are equal.
    pub fn time_past_after_reaching(&self, hour: u8, minute: u8) -> (r: u16)
        requires
            self.is_normalized(),
            is_time_of_day(hour as int, minute as int),
        ensures
            r == self.spec_distance_to(hour as int, minute as int),
            r < MINUTES_PER_DAY,
    {
        let current_stamp = self.stamp();
        let target_stamp = stamp(hour, minute);
        if target_stamp >= current_stamp {
            target_stamp - current_stamp
        } else {
            target_stamp + MINUTES_PER_DAY - current_stamp
        }
    }
}

/// The decimal digit `d` as a character.
pub open spec fn digit_char(d: int) -> char {
    if d == 0 {
        '0'
    } else if d == 1 {
        '1'
    } else if d == 2 {
        '2'
    } else if d == 3 {
        '3'
    } else if d == 4 {
        '4'
    } else if d == 5 {
        '5'
    } else if d == 6 {
        '6'
    } else if d == 7 {
        '7'
    } else if d == 8 {
        '8'
    } else {
        '9'
    }
}

/// The decimal notation of `n`, without leading zeros.
pub open spec fn decimal(n: nat) -> Seq<char>
    decreases n,
{
    if n < 10 {
        seq![digit_char(n as int)]
    } else {
        decimal(n / 10).push(digit_char((n % 10) as int))
    }
}

/// The text `hour:minute` in decimal, as a turn is named in error reports.
pub open spec fn time_label_of(hour: nat, minute: nat) -> Seq<char> {
    decimal(hour) + seq![':'] + decimal(minute)
}

/// The one-character text of the decimal digit `d`.
fn digit_text(d: u8) -> (r: &'static str)
    requires
        d < 10,
    ensures
        r@ == seq![digit_char(d as int)],
{
    match d {
        0 => {
            proof { reveal_strlit("0"); }
            "0"
        },
        1 => {
            proof { reveal_strlit("1"); }
            "1"
        },
        2 => {
            proof { reveal_strlit("2"); }
            "2"
        },
        3 => {
            proof { reveal_strlit("3"); }
            "3"
        },
        4 => {
            proof { reveal_strlit("4"); }
            "4"
        },
        5 => {
            proof { reveal_strlit("5"); }
            "5"
        },
        6 => {
            proof { reveal_strlit("6"); }
            "6"
        },
        7 => {
            proof { reveal_strlit("7"); }
            "7"
        },
        8 => {
            proof { reveal_strlit("8"); }
            "8"
        },
        _ => {
            proof { reveal_strlit("9"); }
            "9"
        },
    }
}

/// Appends the decimal notation of `n` to `text`.
fn append_decimal(text: &mut String, n: u8)
    ensures
        final(text)@ == old(text)@ + decimal(n as nat),
{
    let ghost start = text@;
    if n >= 100 {
        text.append(digit_text(n / 100));
    }
    if n >= 10 {
        text.append(digit_text((n / 10) % 10));
    }
    text.append(digit_text(n % 10));
    proof {
        let k = n as nat;
        if k >= 100 {
            assert(decimal(k / 100) == seq![digit_char((k / 100) as int)]);
            assert(decimal(k / 10) == decimal(k / 100).push(digit_char(((k / 10) % 10) as int)));
        } else if k >= 10 {
            assert(decimal(k / 10) == seq![digit_char((k / 10) as int)]);
        }
        assert(text@ =~= start + decimal(k));
    }
}

/// The text `hour:minute` in decimal, e.g. `25:0`.
pub fn time_label(hour: u8, minute: u8) -> (r: String)
    ensures
        r@ == time_label_of(hour as nat, minute as nat),
{
    let mut text = String::new();
    append_decimal(&mut text, hour);
    proof { reveal_strlit(":"); }
    text.append(":");
    append_decimal(&mut text, minute);
    assert(text@ =~= time_label_of(hour as nat, minute as nat));
    text
}

/// Reaching the turn's own time takes no time at all.
pub proof fn distance_to_own_time_is_zero(t: Turn)
    requires
        t.is_normalized(),
    ensures
        t.spec_distance_to(t.hour as int, t.minute as int) == 0,
{
}

/// A target later in the day is reached after the plain difference of
/// minutes; one earlier in the day after a full day less that difference.
pub proof fn distance_within_one_day(t: Turn, hour: int, minute: int)
    requires
        t.is_normalized(),
        is_time_of_day(hour, minute),
    ensures
        stamp_of(hour, minute) >= t.spec_stamp() ==> t.spec_distance_to(hour, minute)
            == stamp_of(hour, minute) - t.spec_stamp(),
        stamp_of(hour, minute) < t.spec_stamp() ==> t.spec_distance_to(hour, minute)
            == MINUTES_PER_DAY - (t.spec_stamp() - stamp_of(hour, minute)),
{
}

} // verus!
