use vstd::prelude::*;
use crate::text::{to_chars, from_chars, chars_eq};
use crate::num::{parse_u64, parse_u64_exec};
use crate::state::model_position;

verus! {

// ---------------------------------------------------------------------
// Daily request counts
// ---------------------------------------------------------------------

/// Requests made to each model today, and the day they were counted on.
pub struct UsageCounters {
    day: Option<i64>,
    entries: Vec<(String, u32)>,
}

impl UsageCounters {
    /// The day the counts belong to; `None` before the first check.
    pub closed spec fn day(&self) -> Option<i64> {
        self.day
    }

    closed spec fn name_views(&self) -> Seq<Seq<char>> {
        self.entries@.map_values(|e: (String, u32)| e.0@)
    }

    /// Requests counted for a model.
    pub closed spec fn count(&self, name: Seq<char>) -> nat {
        match model_position(self.name_views(), name) {
            Some(i) => self.entries@[i].1 as nat,
            None => 0,
        }
    }

    pub fn new() -> (r: Self)
        ensures
            r.day() is None,
            forall|n: Seq<char>| #[trigger] r.count(n) == 0,
    {
        UsageCounters { day: None, entries: Vec::new() }
    }

    /// The day the counts belong to.
    pub fn last_reset_day(&self) -> (r: Option<i64>)
        ensures
            r == self.day(),
    {
        self.day
    }

    /// Requests counted for a model.
    pub fn count_for(&self, name: &str) -> (r: u32)
        ensures
            r == self.count(name@),
    {
        let n = to_chars(name);
        match self.position_of(n.as_slice()) {
            Some(i) => self.entries[i].1,
            None => 0,
        }
    }

    fn position_of(&self, name: &[char]) -> (r: Option<usize>)
        ensures
            match r {
                Some(i) => i < self.entries@.len() && model_position(self.name_views(), name@)
                    == Some(i as int),
                None => model_position(self.name_views(), name@) is None,
            },
    {
        let ghost ns = self.name_views();
        let mut i: usize = 0;
        assert(ns.take(0) =~= Seq::<Seq<char>>::empty());
        while i < self.entries.len()
            invariant
                i <= self.entries@.len(),
                ns == self.name_views(),
                model_position(ns.take(i as int), name@) is None,
            decreases self.entries@.len() - i,
        {
            let ghost t = ns.take(i + 1);
            assert(t.drop_last() == ns.take(i as int));
            assert(t.last() == self.entries@[i as int].0@);
            let m = to_chars(self.entries[i].0.as_str());
            if chars_eq(m.as_slice(), name) {
                proof {
                    lemma_first_position_prefix(ns, name@, i + 1);
                }
                return Some(i);
            }
            i = i + 1;
        }
        assert(ns.take(self.entries@.len() as int) == ns);
        None
    }
}

proof fn lemma_first_position_prefix(names: Seq<Seq<char>>, name: Seq<char>, n: int)
    requires
        0 <= n <= names.len(),
        model_position(names.take(n), name) is Some,
    ensures
        model_position(names, name) == model_position(names.take(n), name),
    decreases names.len() - n,
{
    if n < names.len() {
        assert(names.take(n + 1).drop_last() == names.take(n));
        lemma_first_position_prefix(names, name, n + 1);
    } else {
        assert(names.take(n) == names);
    }
}

proof fn lemma_position_bounds(names: Seq<Seq<char>>, name: Seq<char>)
    ensures
        model_position(names, name) matches Some(i) ==> 0 <= i < names.len() && names[i] == name,
        model_position(names, name) is None ==> forall|k: int|
            0 <= k < names.len() ==> names[k] != name,
    decreases names.len(),
{
    if names.len() > 0 {
        lemma_position_bounds(names.drop_last(), name);
        assert forall|k: int| 0 <= k < names.len() - 1 implies names.drop_last()[k] == names[k] by {}
    }
}

/// Appending a name changes no other name's position.
proof fn lemma_position_push(names: Seq<Seq<char>>, name: Seq<char>, other: Seq<char>)
    requires
        other != name,
    ensures
        model_position(names.push(name), other) == model_position(names, other),
{
    assert(names.push(name).drop_last() == names);
}

/// Seconds since the Unix epoch, from `chrono::Utc::now().timestamp()`.
/// Nothing is stated of the value: it is the clock.
#[verifier::external_body]
fn unix_seconds_now() -> (secs: i64) {
    chrono::Utc::now().timestamp()
}

/// The day number in Los Angeles at a given time: the UTC time moved back by
/// a fixed eight hours, counted in whole days from the epoch.
pub open spec fn la_day_of(secs: int) -> int {
    (secs - 28800) / 86400
}

/// The Los Angeles day number of a time in seconds since the epoch.
pub fn la_day(secs: i64) -> (day: i64)
    ensures
        day == la_day_of(secs as int),
{
    let x: i128 = secs as i128 - 28800;
    if x >= 0 {
        let d = x / 86400;
        assert(d == la_day_of(secs as int));
        d as i64
    } else {
        let y: i128 = (-x - 1) / 86400;
        proof {
            let xi = x as int;
            let yi = y as int;
            assert(yi * 86400 <= -xi - 1 < yi * 86400 + 86400) by (nonlinear_arith)
                requires
                    yi == (-xi - 1) / 86400,
                    -xi - 1 >= 0,
            ;
            assert((-yi - 1) * 86400 <= xi < (-yi - 1) * 86400 + 86400) by (nonlinear_arith)
                requires
                    yi * 86400 <= -xi - 1 < yi * 86400 + 86400,
            ;
            vstd::arithmetic::div_mod::lemma_fundamental_div_mod_converse(xi, 86400, -yi - 1, xi - (-yi - 1) * 86400);
            assert(la_day_of(secs as int) == xi / 86400);
        }
        (-y - 1) as i64
    }
}

/// Keeps the daily request limits of the models.
pub struct RateLimiter;

impl RateLimiter {
    /// Clears the counts when `today` differs from the day they belong to.
    pub fn maybe_reset_counters(counters: &mut UsageCounters, today: i64)
        ensures
            final(counters).day() == Some(today),
            old(counters).day() == Some(today) ==> forall|n: Seq<char>|
                #[trigger] final(counters).count(n) == old(counters).count(n),
            old(counters).day() != Some(today) ==> forall|n: Seq<char>|
                #[trigger] final(counters).count(n) == 0,
    {
        let same_day = match counters.day {
            Some(d) => d == today,
            None => false,
        };
        if !same_day {
            counters.entries = Vec::new();
            counters.day = Some(today);
            assert(counters.name_views() =~= Seq::<Seq<char>>::empty());
        }
    }

    /// Whether another request to a model is allowed on day `today`: the
    /// counts are cleared when `today` differs from the day they belong to,
    /// and the request is allowed while the model's count is below its daily
    /// limit.
    pub fn check_rate_limit_on(name: &str, rpd_limit: u32, counters: &mut UsageCounters, today: i64) -> (allowed: bool)
        ensures
            final(counters).day() == Some(today),
            old(counters).day() == Some(today) ==> forall|n: Seq<char>|
                #[trigger] final(counters).count(n) == old(counters).count(n),
            old(counters).day() != Some(today) ==> forall|n: Seq<char>|
                #[trigger] final(counters).count(n) == 0,
            allowed == (final(counters).count(name@) < rpd_limit),
    {
        Self::maybe_reset_counters(counters, today);
        let n = to_chars(name);
        match counters.position_of(n.as_slice()) {
            Some(i) => counters.entries[i].1 < rpd_limit,
            None => 0 < rpd_limit,
        }
    }

    /// Whether another request to a model is allowed today, by the clock in
    /// Los Angeles (a fixed UTC-8). Whatever the clock reads, the counts
    /// belong to one day afterwards, are kept when that was already their
    /// day and cleared otherwise, and the answer compares the model's count
    /// with its daily limit.
    pub fn check_rate_limit(name: &str, rpd_limit: u32, counters: &mut UsageCounters) -> (allowed: bool)
        ensures
            exists|today: i64|
                {
                    &&& #[trigger] final(counters).day() == Some(today)
                    &&& old(counters).day() == Some(today) ==> forall|n: Seq<char>|
                        #[trigger] final(counters).count(n) == old(counters).count(n)
                    &&& old(counters).day() != Some(today) ==> forall|n: Seq<char>|
                        #[trigger] final(counters).count(n) == 0
                },
            allowed == (final(counters).count(name@) < rpd_limit),
    {
        let today = la_day(unix_seconds_now());
        Self::check_rate_limit_on(name, rpd_limit, counters, today)
    }

    /// Counts one more request to a model.
    pub fn increment_counter(name: &str, counters: &mut UsageCounters)
        requires
            old(counters).count(name@) < u32::MAX,
        ensures
            final(counters).day() == old(counters).day(),
            final(counters).count(name@) == old(counters).count(name@) + 1,
            forall|n: Seq<char>|
                n != name@ ==> #[trigger] final(counters).count(n) == old(counters).count(n),
    {
        let n = to_chars(name);
        let ghost before = counters.name_views();
        proof {
            lemma_position_bounds(before, name@);
        }
        match counters.position_of(n.as_slice()) {
            Some(i) => {
                let c = counters.entries[i].1;
                counters.entries.set(i, (from_chars(n.as_slice()), c + 1));
                assert(counters.name_views() =~= before);
                assert forall|m: Seq<char>| m != name@ implies #[trigger] counters.count(m)
                    == old(counters).count(m) by {
                    lemma_position_bounds(before, m);
                }
            },
            None => {
                counters.entries.push((from_chars(n.as_slice()), 1));
                assert(counters.name_views() =~= before.push(name@));
                proof {
                    assert(before.push(name@).drop_last() == before);
                }
                assert forall|m: Seq<char>| m != name@ implies #[trigger] counters.count(m)
                    == old(counters).count(m) by {
                    lemma_position_push(before, name@, m);
                    lemma_position_bounds(before, m);
                }
            },
        }
    }
}

// ---------------------------------------------------------------------
// Waiting between jobs
// ---------------------------------------------------------------------

/// How long to wait before the next job: the rest of the delay when the last
/// job started less than a delay ago, else nothing.
pub open spec fn wait_for(elapsed: Option<u128>, delay: u128) -> Option<u128> {
    match elapsed {
        Some(e) => if e < delay {
            Some((delay - e) as u128)
        } else {
            None
        },
        None => None,
    }
}

/// The spacing between requests to a model allowed `rpm_limit` requests a
/// minute, in nanoseconds: a minute shared out evenly; none without a limit.
pub open spec fn rpm_spacing(rpm_limit: u32) -> Option<u128> {
    if rpm_limit == 0 {
        None
    } else {
        Some((60_000_000_000u128 / rpm_limit as u128) as u128)
    }
}

pub fn rpm_delay_nanos(rpm_limit: u32) -> (r: Option<u128>)
    ensures
        r == rpm_spacing(rpm_limit),
{
    if rpm_limit == 0 {
        None
    } else {
        Some(60_000_000_000u128 / rpm_limit as u128)
    }
}

/// The remaining wait (in nanoseconds) before the next job may start.
pub fn remaining_wait(elapsed_nanos: Option<u128>, delay_nanos: u128) -> (r: Option<u128>)
    ensures
        r == wait_for(elapsed_nanos, delay_nanos),
{
    match elapsed_nanos {
        Some(e) => if e < delay_nanos {
            Some(delay_nanos - e)
        } else {
            None
        },
        None => None,
    }
}

/// A numeric setting: its value when set and parsable, else the default.
pub open spec fn setting_value(value: Option<Seq<char>>, default: u64) -> u64 {
    match value {
        Some(v) => match parse_u64(v) {
            Some(n) => n,
            None => default,
        },
        None => default,
    }
}

/// Reads a numeric setting from its text, falling back to a default.
pub fn setting_or(value: Option<&str>, default: u64) -> (r: u64)
    ensures
        r == setting_value(
            match value {
                Some(v) => Some(v@),
                None => None,
            },
            default,
        ),
{
    match value {
        Some(v) => {
            let c = to_chars(v);
            match parse_u64_exec(c.as_slice()) {
                Some(n) => n,
                None => default,
            }
        },
        None => default,
    }
}

} // verus!
