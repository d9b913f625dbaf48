use vstd::prelude::*;

verus! {

/// Division by a positive divisor that rounds toward zero, as Rust's `/`
/// does on signed integers.
pub open spec fn div_toward_zero(a: int, d: int) -> int
    recommends
        d > 0,
{
    if a >= 0 {
        a / d
    } else {
        -((-a) / d)
    }
}

/// A performance-counter reading in 100-nanosecond units.
pub open spec fn spec_qpc_to_100ns(counter: int, frequency: int) -> int {
    if frequency <= 0 {
        0
    } else {
        div_toward_zero(counter * 10_000_000, frequency)
    }
}

/// Quotient of `a` by a positive `d`, rounded toward zero.
pub fn div_positive(a: i64, d: i64) -> (q: i64)
    requires
        d > 0,
    ensures
        q == div_toward_zero(a as int, d as int),
{
    let r = a.checked_div(d);
    assert(r.is_some()) by {
        if a < 0 {
            assert((-(a as int)) / (d as int) <= -(a as int)) by (nonlinear_arith)
                requires a < 0, d > 0;
        } else {
            assert((a as int) / (d as int) <= a as int) by (nonlinear_arith)
                requires a >= 0, d > 0;
        }
    }
    match r {
        Some(q) => q,
        None => 0,
    }
}

/// Converts a performance-counter value `counter`, ticking `frequency` times
/// per second, into 100-nanosecond units; a frequency that is not positive
/// gives 0.
pub fn qpc_to_100ns(counter: i64, frequency: i64) -> (r: i64)
    requires
        frequency > 0 ==> i64::MIN <= counter * 10_000_000 <= i64::MAX,
    ensures
        r == spec_qpc_to_100ns(counter as int, frequency as int),
{
    if frequency <= 0 {
        return 0;
    }
    div_positive(counter * 10_000_000, frequency)
}

/// A clock reading `now_100ns` relative to the session start
/// `session_start_100ns`, both in 100-nanosecond units.
pub fn since_session_start(now_100ns: i64, session_start_100ns: i64) -> (r: i64)
    requires
        i64::MIN <= now_100ns - session_start_100ns <= i64::MAX,
    ensures
        r == now_100ns - session_start_100ns,
{
    now_100ns - session_start_100ns
}

/// Performance-counter conversion never runs backwards: for a fixed
/// positive frequency, a later counter value never gives an earlier time.
pub proof fn law_qpc_monotone(earlier: int, later: int, frequency: int)
    requires
        earlier <= later,
        frequency > 0,
    ensures
        spec_qpc_to_100ns(earlier, frequency) <= spec_qpc_to_100ns(later, frequency),
{
    let a = earlier * 10_000_000;
    let b = later * 10_000_000;
    assert(a <= b) by (nonlinear_arith)
        requires earlier <= later, a == earlier * 10_000_000, b == later * 10_000_000;
    lemma_div_toward_zero_monotone(a, b, frequency);
}

proof fn lemma_div_toward_zero_monotone(a: int, b: int, d: int)
    requires
        a <= b,
        d > 0,
    ensures
        div_toward_zero(a, d) <= div_toward_zero(b, d),
{
    if a >= 0 {
        vstd::arithmetic::div_mod::lemma_div_is_ordered(a, b, d);
    } else if b >= 0 {
        assert((-a) / d >= 0) by (nonlinear_arith)
            requires a < 0, d > 0;
        assert(b / d >= 0) by (nonlinear_arith)
            requires b >= 0, d > 0;
    } else {
        vstd::arithmetic::div_mod::lemma_div_is_ordered(-b, -a, d);
    }
}

} // verus!
