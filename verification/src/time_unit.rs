//! Candle periods: rounding a timestamp down to the start of its period.
use crate::bignum::abs;
use vstd::prelude::*;

verus! {

/// Rust's `/` on integers: the quotient rounded toward zero.
pub open spec fn trunc_div(a: int, b: int) -> int {
    if (a >= 0) == (b > 0) {
        (abs(a) / abs(b)) as int
    } else {
        -((abs(a) / abs(b)) as int)
    }
}

/// Start of the period of length `interval` (periods aligned on `offset`)
/// that holds `timestamp`, as `get_latest_time_unit` computes it.
pub open spec fn latest_time_unit(timestamp: int, interval: int, offset: int) -> int {
    trunc_div(timestamp - offset, interval) * interval + offset
}

/// The inputs on which `get_latest_time_unit` computes without overflow.
pub open spec fn time_unit_in_range(timestamp: int, interval: int, offset: int) -> bool {
    &&& interval != 0
    &&& i64::MIN <= timestamp - offset <= i64::MAX
    &&& !(timestamp - offset == i64::MIN && interval == -1)
}

proof fn lemma_trunc_div_mul_bounded(a: int, b: int)
    requires
        b != 0,
    ensures
        a >= 0 ==> 0 <= trunc_div(a, b) * b <= a,
        a < 0 ==> a <= trunc_div(a, b) * b <= 0,
        abs(trunc_div(a, b)) <= abs(a),
{
    let x = abs(a);
    let y = abs(b);
    let q = x / y;
    assert(0 <= q * y <= x && q <= x) by (nonlinear_arith)
        requires
            y > 0,
            x >= 0,
            q == x / y,
    ;
    if (a >= 0) == (b > 0) {
        if a < 0 {
            assert(q * b == -(q * y)) by (nonlinear_arith)
                requires
                    b == -y,
            ;
        }
    } else {
        if a >= 0 {
            assert((-q) * b == q * y) by (nonlinear_arith)
                requires
                    b == -y,
            ;
        } else {
            assert((-q) * b == -(q * y)) by (nonlinear_arith)
                requires
                    b == y,
            ;
        }
    }
}

/// Quotient of `a` by `b` rounded toward zero, as Rust's `/` gives it.
fn div_toward_zero(a: i64, b: i64) -> (q: i64)
    requires
        b != 0,
        !(a == i64::MIN && b == -1),
    ensures
        q as int == trunc_div(a as int, b as int),
{
    if b > 0 {
        let q = a / b;
        if a >= 0 {
            assert(q as int == (a as int) / (b as int));
        } else {
            assert(q as int == -((-(a as int)) / (b as int)));
        }
        q
    } else if b == i64::MIN {
        if a == i64::MIN {
            assert(abs(a as int) / abs(b as int) == 1);
            1
        } else {
            assert(abs(a as int) < abs(b as int));
            assert(abs(a as int) / abs(b as int) == 0);
            0
        }
    } else {
        let nb: i64 = -b;
        let p = a / nb;
        if a >= 0 {
            assert(p as int == (a as int) / (nb as int));
        } else {
            assert(p as int == -((-(a as int)) / (nb as int)));
        }
        proof {
            lemma_trunc_div_mul_bounded(a as int, nb as int);
            if a == i64::MIN {
                let x = abs(a as int);
                assert(x / (nb as nat) <= x / 2) by (nonlinear_arith)
                    requires
                        nb >= 2,
                        x >= 0,
                ;
            }
        }
        -p
    }
}

/// Rounds `timestamp` down (toward `offset`) to the start of its period of
/// length `interval_in_seconds`, periods being aligned on `offset`.
pub fn get_latest_time_unit(timestamp: i64, interval_in_seconds: i64, offset: i64) -> (r: i64)
    requires
        time_unit_in_range(timestamp as int, interval_in_seconds as int, offset as int),
    ensures
        r as int == latest_time_unit(timestamp as int, interval_in_seconds as int, offset as int),
{
    let timestamp_seconds = timestamp;
    let shifted: i64 = timestamp_seconds - offset;
    let q: i64 = div_toward_zero(shifted, interval_in_seconds);
    proof {
        lemma_trunc_div_mul_bounded(shifted as int, interval_in_seconds as int);
    }
    let latest_time_unit: i64 = q * interval_in_seconds;
    latest_time_unit + offset
}

/// Law: for a positive period and a timestamp not before `offset`, the start
/// of the period is not after the timestamp, the timestamp lies within one
/// period of it, and it is `offset` plus a whole number of periods.
pub proof fn lemma_latest_time_unit_bounds(timestamp: int, interval: int, offset: int)
    requires
        interval > 0,
        timestamp >= offset,
    ensures
        latest_time_unit(timestamp, interval, offset) <= timestamp,
        timestamp < latest_time_unit(timestamp, interval, offset) + interval,
        (latest_time_unit(timestamp, interval, offset) - offset) % interval == 0,
{
    let a = timestamp - offset;
    let q = trunc_div(a, interval);
    assert(q == a / interval);
    assert(q * interval <= a && a < q * interval + interval) by (nonlinear_arith)
        requires
            interval > 0,
            a >= 0,
            q == a / interval,
    ;
    assert((q * interval) % interval == 0) by (nonlinear_arith)
        requires
            interval > 0,
    ;
}

/// Law: rounding a period start again gives the same period start.
pub proof fn lemma_latest_time_unit_idempotent(timestamp: int, interval: int, offset: int)
    requires
        interval > 0,
        timestamp >= offset,
    ensures
        latest_time_unit(latest_time_unit(timestamp, interval, offset), interval, offset)
            == latest_time_unit(timestamp, interval, offset),
{
    lemma_latest_time_unit_bounds(timestamp, interval, offset);
    let a = timestamp - offset;
    let q = a / interval;
    assert(q >= 0) by (nonlinear_arith)
        requires
            interval > 0,
            a >= 0,
            q == a / interval,
    ;
    assert(q * interval >= 0) by (nonlinear_arith)
        requires
            interval > 0,
            q >= 0,
    ;
    assert((q * interval) / interval == q) by (nonlinear_arith)
        requires
            interval > 0,
    ;
}

/// Law: every timestamp of a period rounds to the same period start, so all
/// blocks of one period write to the same candle key.
pub proof fn lemma_latest_time_unit_same_period(t1: int, t2: int, interval: int, offset: int)
    requires
        interval > 0,
        t1 >= offset,
        latest_time_unit(t1, interval, offset) <= t2 < latest_time_unit(t1, interval, offset) + interval,
    ensures
        latest_time_unit(t2, interval, offset) == latest_time_unit(t1, interval, offset),
{
    lemma_latest_time_unit_bounds(t1, interval, offset);
    let q = (t1 - offset) / interval;
    assert(q >= 0) by (nonlinear_arith)
        requires
            interval > 0,
            t1 - offset >= 0,
            q == (t1 - offset) / interval,
    ;
    assert(trunc_div(t1 - offset, interval) == q);
    let a2 = t2 - offset;
    assert(q * interval >= 0) by (nonlinear_arith)
        requires
            interval > 0,
            q >= 0,
    ;
    assert(a2 / interval == q) by (nonlinear_arith)
        requires
            interval > 0,
            q * interval <= a2 < q * interval + interval,
    ;
    assert(trunc_div(a2, interval) == q);
}

/// The candle periods of the base fee.
#[derive(Clone, Copy, PartialEq, Eq, Debug)]
pub enum Granularity {
    Minute,
    Hour,
    Day,
    Week,
}

impl Granularity {
    pub open spec fn interval_spec(self) -> int {
        match self {
            Granularity::Minute => 60,
            Granularity::Hour => 3600,
            Granularity::Day => 86400,
            Granularity::Week => 604800,
        }
    }

    /// Weeks start on Monday 00:00 UTC, four days after the epoch (a Thursday).
    pub open spec fn offset_spec(self) -> int {
        match self {
            Granularity::Week => 345600,
            _ => 0,
        }
    }

    /// How far back the candle stores keep their keys: two days for the
    /// minute, hour and day candles, two weeks for the week candles.
    pub open spec fn retention_spec(self) -> int {
        match self {
            Granularity::Week => 1209600,
            _ => 172800,
        }
    }

    /// Length of the period in seconds.
    pub fn interval(self) -> (r: i64)
        ensures
            r as int == self.interval_spec(),
    {
        match self {
            Granularity::Minute => 60,
            Granularity::Hour => 3600,
            Granularity::Day => 86400,
            Granularity::Week => 604800,
        }
    }

    /// Where the periods are aligned, in seconds after the epoch.
    pub fn offset(self) -> (r: i64)
        ensures
            r as int == self.offset_spec(),
    {
        match self {
            Granularity::Week => 345600,
            _ => 0,
        }
    }

    /// Age in seconds past which the candle stores drop a key.
    pub fn retention(self) -> (r: i64)
        ensures
            r as int == self.retention_spec(),
    {
        match self {
            Granularity::Week => 1209600,
            _ => 172800,
        }
    }

    /// Whether the period start of `timestamp` can be computed.
    pub fn admits(self, timestamp: i64) -> (r: bool)
        ensures
            r == self.accepts(timestamp as int),
    {
        timestamp >= i64::MIN + self.offset()
    }

    /// Start of the candle period of this granularity that holds `timestamp`.
    pub open spec fn period_start(self, timestamp: int) -> int {
        latest_time_unit(timestamp, self.interval_spec(), self.offset_spec())
    }

    /// The timestamps whose period start can be computed: those not more than
    /// the offset above the smallest `i64`.
    pub open spec fn accepts(self, timestamp: int) -> bool {
        timestamp - self.offset_spec() >= i64::MIN
    }
}

/// The start of a period lies between `offset` and the timestamp, so it is an
/// `i64` whenever both are.
pub proof fn lemma_period_start_in_range(timestamp: int, g: Granularity)
    requires
        i64::MIN <= timestamp <= i64::MAX,
        g.accepts(timestamp),
    ensures
        i64::MIN <= g.period_start(timestamp) <= i64::MAX,
{
    lemma_trunc_div_mul_bounded(timestamp - g.offset_spec(), g.interval_spec());
}

/// Law: minute, hour and day candles start on a whole minute, hour and day
/// of UTC time and last 60, 3600 and 86400 seconds; week candles start on a
/// Monday at 00:00 UTC (345600 seconds after the epoch, a Thursday, plus a
/// whole number of weeks) and last 604800 seconds. Each holds the timestamp
/// it is the candle of.
pub proof fn lemma_candle_periods(t: int)
    ensures
        t >= 0 ==> {
            &&& Granularity::Minute.period_start(t) % 60 == 0
            &&& Granularity::Minute.period_start(t) <= t < Granularity::Minute.period_start(t) + 60
            &&& Granularity::Hour.period_start(t) % 3600 == 0
            &&& Granularity::Hour.period_start(t) <= t < Granularity::Hour.period_start(t) + 3600
            &&& Granularity::Day.period_start(t) % 86400 == 0
            &&& Granularity::Day.period_start(t) <= t < Granularity::Day.period_start(t) + 86400
        },
        t >= 345600 ==> {
            &&& (Granularity::Week.period_start(t) - 345600) % 604800 == 0
            &&& Granularity::Week.period_start(t) <= t < Granularity::Week.period_start(t) + 604800
        },
{
    if t >= 0 {
        lemma_latest_time_unit_bounds(t, 60, 0);
        lemma_latest_time_unit_bounds(t, 3600, 0);
        lemma_latest_time_unit_bounds(t, 86400, 0);
    }
    if t >= 345600 {
        lemma_latest_time_unit_bounds(t, 604800, 345600);
    }
}

/// Start of the candle period of granularity `g` that holds `timestamp`.
pub fn period_start(timestamp: i64, g: Granularity) -> (r: i64)
    requires
        g.accepts(timestamp as int),
    ensures
        r as int == g.period_start(timestamp as int),
{
    get_latest_time_unit(timestamp, g.interval(), g.offset())
}

} // verus!
