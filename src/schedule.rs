use vstd::prelude::*;

use itertools::Itertools;
use vstd::multiset::Multiset;

use crate::turn::{time_label, time_label_of, Turn};

verus! {

broadcast use {
    vstd::seq_lib::group_seq_properties,
    vstd::seq_lib::group_filter_ensures,
    vstd::seq_lib::group_to_multiset_ensures,
    Seq::lemma_filter_push,
};

/// Why a list of turns cannot become a schedule.
#[derive(Debug, PartialEq, Eq)]
pub enum TurnError {
    /// Some turns have an hour above 24 or a minute of 60 or more; each
    /// offending turn is named as `hour:minute`, in input order.
    InvalidTimes(Vec<String>),
    /// No turn is left to schedule.
    Empty,
}

impl Turn {
    /// The turn with an hour of 24 read as midnight.
    pub open spec fn spec_normalized(self) -> Turn {
        if self.hour == 24 {
            Turn { hour: 0, ..self }
        } else {
            self
        }
    }

    /// The text `hour:minute` that names this turn in error reports.
    pub open spec fn spec_label(self) -> Seq<char> {
        time_label_of(self.hour as nat, self.minute as nat)
    }

    /// The turn with an hour of 24 read as midnight.
    pub fn normalized(self) -> (r: Turn)
        ensures
            r == self.spec_normalized(),
    {
        if self.hour == 24 {
            Turn { hour: 0, ..self }
        } else {
            self
        }
    }
}

/// The turns whose time is not acceptable input, in input order.
pub open spec fn out_of_range(s: Seq<Turn>) -> Seq<Turn> {
    s.filter(|t: Turn| !t.spec_in_range())
}

/// Every turn with an hour of 24 read as midnight.
pub open spec fn normalized_all(s: Seq<Turn>) -> Seq<Turn> {
    s.map_values(|t: Turn| t.spec_normalized())
}

/// Whether some turn of `s` has the stamp `k`.
pub open spec fn stamp_seen(s: Seq<Turn>, k: int) -> bool {
    exists|j: int| 0 <= j < s.len() && s[j].spec_stamp() == k
}

/// The first turn for each stamp, in input order.
pub open spec fn first_by_stamp(s: Seq<Turn>) -> Seq<Turn>
    decreases s.len(),
{
    if s.len() == 0 {
        Seq::empty()
    } else if stamp_seen(s.drop_last(), s.last().spec_stamp()) {
        first_by_stamp(s.drop_last())
    } else {
        first_by_stamp(s.drop_last()).push(s.last())
    }
}

/// No two turns of `s` share a stamp.
pub open spec fn distinct_stamps(s: Seq<Turn>) -> bool {
    forall|i: int, j: int| 0 <= i < j < s.len() ==> s[i].spec_stamp() != s[j].spec_stamp()
}

/// The stamps of `s` increase strictly.
pub open spec fn strictly_ascending(s: Seq<Turn>) -> bool {
    forall|i: int, j: int| 0 <= i < j < s.len() ==> s[i].spec_stamp() < s[j].spec_stamp()
}

/// A circular timeline of turns: not empty, every time a time of day, and
/// ordered by strictly increasing stamp.
pub open spec fn is_schedule(s: Seq<Turn>) -> bool {
    &&& s.len() > 0
    &&& forall|i: int| 0 <= i < s.len() ==> #[trigger] s[i].is_normalized()
    &&& strictly_ascending(s)
}

/// The schedule made of `raw`: the first turn for each stamp, times
/// normalized, by ascending stamp. Two schedules with the same turns are
/// the same sequence, so the turns alone determine it.
pub open spec fn schedule_turns(raw: Seq<Turn>) -> Multiset<Turn> {
    first_by_stamp(normalized_all(raw)).to_multiset()
}

/// Turns ordered by strictly increasing stamp are determined by which
/// turns they are: two such sequences holding the same turns are equal.
pub proof fn schedule_determined_by_its_turns(a: Seq<Turn>, b: Seq<Turn>)
    requires
        strictly_ascending(a),
        strictly_ascending(b),
        a.to_multiset() == b.to_multiset(),
    ensures
        a == b,
    decreases a.len(),
{
    assert(a.len() == b.len()) by {
        vstd::seq_lib::to_multiset_len(a);
        vstd::seq_lib::to_multiset_len(b);
    }
    if a.len() > 0 {
        assert(a.to_multiset().count(a[0]) > 0);
        assert(b.contains(a[0]));
        let k = choose|k: int| 0 <= k < b.len() && b[k] == a[0];
        assert(b.to_multiset().count(b[0]) > 0);
        assert(a.contains(b[0]));
        let m = choose|m: int| 0 <= m < a.len() && a[m] == b[0];
        if k > 0 {
            assert(b[0].spec_stamp() < b[k].spec_stamp());
            if m > 0 {
                assert(a[0].spec_stamp() < a[m].spec_stamp());
            }
            assert(false);
        }
        assert(a.remove(0) =~= a.drop_first());
        assert(b.remove(0) =~= b.drop_first());
        assert(a.remove(0).to_multiset() =~= a.to_multiset().remove(a[0]));
        assert(b.remove(0).to_multiset() =~= b.to_multiset().remove(b[0]));
        schedule_determined_by_its_turns(a.drop_first(), b.drop_first());
        assert(a =~= b) by {
            assert forall|i: int| 0 <= i < a.len() implies a[i] == b[i] by {
                if i > 0 {
                    assert(a[i] == a.drop_first()[i - 1]);
                    assert(b[i] == b.drop_first()[i - 1]);
                }
            }
        }
    } else {
        assert(a =~= b);
    }
}

/// Relies on itertools' `unique_by`: walking the turns in order, it keeps a
/// turn only when no earlier one had the same key.
#[verifier::external_body]
fn keep_first_by_stamp(turns: Vec<Turn>) -> (r: Vec<Turn>)
    ensures
        r@ == first_by_stamp(turns@),
{
    turns.into_iter().unique_by(Turn::stamp).collect()
}

/// Relies on itertools' `sorted_by_key`: the same turns, ordered by the key;
/// with distinct keys the order is strict.
#[verifier::external_body]
fn sort_by_stamp(turns: Vec<Turn>) -> (r: Vec<Turn>)
    requires
        distinct_stamps(turns@),
    ensures
        r@.to_multiset() == turns@.to_multiset(),
        strictly_ascending(r@),
{
    turns.into_iter().sorted_by_key(Turn::stamp).collect()
}

proof fn lemma_first_by_stamp(s: Seq<Turn>)
    ensures
        first_by_stamp(s).len() == 0 <==> s.len() == 0,
        distinct_stamps(first_by_stamp(s)),
        forall|k: int| 0 <= k < first_by_stamp(s).len() ==> s.contains(#[trigger] first_by_stamp(s)[k]),
    decreases s.len(),
{
    if s.len() > 0 {
        let p = s.drop_last();
        lemma_first_by_stamp(p);
        let f = first_by_stamp(p);
        assert forall|k: int| 0 <= k < f.len() implies s.contains(#[trigger] f[k]) by {
            let j = choose|j: int| 0 <= j < p.len() && p[j] == f[k];
            assert(s[j] == f[k]);
        }
        if !stamp_seen(p, s.last().spec_stamp()) {
            let g = f.push(s.last());
            assert(s[s.len() - 1] == s.last());
            assert forall|i: int, j: int| 0 <= i < j < g.len() implies g[i].spec_stamp() != g[j].spec_stamp() by {
                if j == g.len() - 1 {
                    let w = choose|w: int| 0 <= w < p.len() && p[w] == f[i];
                    assert(p[w].spec_stamp() == f[i].spec_stamp());
                }
            }
        } else {
            if p.len() == 0 {
                assert(false);
            }
        }
    }
}

/// Builds the schedule from raw turns: out-of-range times are reported all
/// together, 24:00 becomes midnight, only the first turn for each stamp is
/// kept, and the rest is ordered by stamp. A list with nothing left is refused.
pub fn build_schedule(raw: Vec<Turn>) -> (r: Result<Vec<Turn>, TurnError>)
    ensures
        match r {
            Err(TurnError::InvalidTimes(labels)) => {
                &&& out_of_range(raw@).len() > 0
                &&& labels@.map_values(|l: String| l@) == out_of_range(raw@).map_values(
                    |t: Turn| t.spec_label(),
                )
            },
            Err(TurnError::Empty) => out_of_range(raw@).len() == 0 && raw@.len() == 0,
            Ok(s) => {
                &&& out_of_range(raw@).len() == 0
                &&& raw@.len() > 0
                &&& is_schedule(s@)
                &&& s@.to_multiset() == schedule_turns(raw@)
            },
        },
{
    let mut labels: Vec<String> = Vec::new();
    let mut i: usize = 0;
    while i < raw.len()
        invariant
            i <= raw@.len(),
            labels@.len() == out_of_range(raw@.subrange(0, i as int)).len(),
            forall|k: int|
                0 <= k < labels@.len() ==> #[trigger] labels@[k]@ == out_of_range(
                    raw@.subrange(0, i as int),
                )[k].spec_label(),
        decreases raw@.len() - i,
    {
        let t = raw[i];
        proof {
            assert(raw@.subrange(0, i + 1) =~= raw@.subrange(0, i as int).push(t));
            assert(out_of_range(raw@.subrange(0, i as int).push(t)) == if !t.spec_in_range() {
                out_of_range(raw@.subrange(0, i as int)).push(t)
            } else {
                out_of_range(raw@.subrange(0, i as int))
            });
        }
        if !t.in_range() {
            labels.push(time_label(t.hour, t.minute));
        }
        i = i + 1;
    }
    assert(raw@.subrange(0, raw@.len() as int) =~= raw@);
    if labels.len() > 0 {
        assert(labels@.map_values(|l: String| l@) =~= out_of_range(raw@).map_values(
            |t: Turn| t.spec_label(),
        ));
        return Err(TurnError::InvalidTimes(labels));
    }
    assert forall|k: int| 0 <= k < raw@.len() implies #[trigger] raw@[k].spec_in_range() by {
        if !raw@[k].spec_in_range() {
            assert(out_of_range(raw@).contains(raw@[k]));
        }
    }
    let mut normal: Vec<Turn> = Vec::new();
    let mut j: usize = 0;
    while j < raw.len()
        invariant
            j <= raw@.len(),
            normal@.len() == j,
            forall|k: int| 0 <= k < j ==> #[trigger] normal@[k] == raw@[k].spec_normalized(),
        decreases raw@.len() - j,
    {
        normal.push(raw[j].normalized());
        j = j + 1;
    }
    assert(normal@ =~= normalized_all(raw@));
    let unique = keep_first_by_stamp(normal);
    proof {
        lemma_first_by_stamp(normalized_all(raw@));
    }
    if unique.len() == 0 {
        return Err(TurnError::Empty);
    }
    let sorted = sort_by_stamp(unique);
    proof {
        let u = first_by_stamp(normalized_all(raw@));
        assert forall|k: int| 0 <= k < sorted@.len() implies #[trigger] sorted@[k].is_normalized() by {
            assert(sorted@.to_multiset().count(sorted@[k]) > 0);
            assert(u.contains(sorted@[k]));
            let w = choose|w: int| 0 <= w < u.len() && u[w] == sorted@[k];
            assert(normalized_all(raw@).contains(u[w]));
            let v = choose|v: int| 0 <= v < raw@.len() && normalized_all(raw@)[v] == u[w];
            assert(raw@[v].spec_in_range());
        }
        assert(sorted@.len() == u.len()) by {
            assert(sorted@.to_multiset().len() == u.to_multiset().len());
        }
    }
    Ok(sorted)
}

} // verus!
