use vstd::prelude::*;

use vstd::arithmetic::div_mod::{
    lemma_fundamental_div_mod, lemma_mod_division_less_than_divisor,
};

use crate::error::ApiError;
use crate::models::{ApiConfig, Slot};

verus! {

/// Millisecond duration of one thread step within a period.
pub open spec fn thread_unit(cfg: ApiConfig) -> int {
    cfg.t0 as int / cfg.thread_count as int
}

/// Wall-clock timestamp, in milliseconds, at which a slot begins.
pub open spec fn slot_timestamp(cfg: ApiConfig, s: Slot) -> int {
    cfg.genesis_timestamp as int + s.period as int * cfg.t0 as int + s.thread as int
        * thread_unit(cfg)
}

/// A slot is valid when its thread exists under the configuration.
pub open spec fn slot_valid(cfg: ApiConfig, s: Slot) -> bool {
    s.thread < cfg.thread_count
}

/// Order on slots: by period, then by thread within the period.
pub open spec fn slot_le(a: Slot, b: Slot) -> bool {
    a.period < b.period || (a.period == b.period && a.thread <= b.thread)
}

/// The slot the latest-slot computation lands on: elapsed time since
/// genesis split into periods, the remainder into thread units.  It is the
/// zero slot while `now` still lies before genesis.
pub open spec fn latest_base_slot(cfg: ApiConfig, now: u64) -> Slot {
    if (now as int) < cfg.genesis_timestamp as int {
        Slot { period: 0, thread: 0 }
    } else {
        let e = now as int - cfg.genesis_timestamp as int;
        Slot {
            period: (e / cfg.t0 as int) as u64,
            thread: ((e % cfg.t0 as int) / thread_unit(cfg)) as u8,
        }
    }
}

/// Under a well-formed configuration the thread unit is positive and
/// `t0` splits exactly into `thread_count` units.
proof fn lemma_thread_unit(cfg: ApiConfig)
    requires
        cfg.wf(),
    ensures
        thread_unit(cfg) >= 1,
        cfg.t0 as int == cfg.thread_count as int * thread_unit(cfg),
{
    let t0 = cfg.t0 as int;
    let tc = cfg.thread_count as int;
    lemma_fundamental_div_mod(t0, tc);
    assert(t0 == tc * (t0 / tc));
    assert(t0 / tc >= 1) by {
        if t0 / tc <= 0 {
            assert(tc * (t0 / tc) <= 0) by (nonlinear_arith)
                requires
                    tc > 0,
                    t0 / tc <= 0,
            ;
        }
    }
}

/// Core claim behind the latest-slot computation: with `e` the time elapsed
/// since genesis, the slot `(e / t0, (e % t0) / unit)` begins no later than
/// `genesis + e`, is valid, and every valid slot beginning no later than
/// `genesis + e` precedes it.
proof fn lemma_latest_slot(cfg: ApiConfig, now: u64)
    requires
        cfg.wf(),
        now >= cfg.genesis_timestamp,
    ensures
        ({
            let e = now as int - cfg.genesis_timestamp as int;
            let p = e / cfg.t0 as int;
            let th = (e % cfg.t0 as int) / thread_unit(cfg);
            &&& 0 <= p <= e
            &&& 0 <= th < cfg.thread_count
            &&& cfg.genesis_timestamp as int + p * cfg.t0 as int + th * thread_unit(cfg)
                <= now as int
            &&& forall|s2: Slot|
                slot_valid(cfg, s2) && slot_timestamp(cfg, s2) <= now as int ==> slot_le(
                    s2,
                    Slot { period: p as u64, thread: th as u8 },
                )
        }),
{
    let g = cfg.genesis_timestamp as int;
    let t0 = cfg.t0 as int;
    let tc = cfg.thread_count as int;
    let u = thread_unit(cfg);
    let e = now as int - g;
    let p = e / t0;
    let r = e % t0;
    let th = r / u;
    lemma_thread_unit(cfg);
    lemma_fundamental_div_mod(e, t0);
    lemma_mod_division_less_than_divisor(e, t0);
    assert(e == t0 * p + r);
    assert(0 <= r < t0);
    lemma_fundamental_div_mod(r, u);
    lemma_mod_division_less_than_divisor(r, u);
    assert(r == u * th + r % u);
    // the computed thread fits below the thread count
    assert(th < tc) by {
        if th >= tc {
            assert(u * th >= u * tc) by (nonlinear_arith)
                requires
                    u >= 1,
                    th >= tc,
            ;
            assert(tc * u == u * tc) by (nonlinear_arith);
        }
    }
    assert(th >= 0);
    assert(p >= 0) by {
        if p < 0 {
            assert(t0 * p <= t0 * -1) by (nonlinear_arith)
                requires
                    t0 >= 1,
                    p <= -1,
            ;
        }
    }
    assert(p <= e) by {
        if p > e {
            assert(t0 * p >= t0 * (e + 1)) by (nonlinear_arith)
                requires
                    t0 >= 1,
                    p >= e + 1,
            ;
            assert(t0 * (e + 1) >= e + 1) by (nonlinear_arith)
                requires
                    t0 >= 1,
                    e + 1 >= 0,
            ;
        }
    }
    // the slot begins no later than `now`
    assert(th * u <= r) by {
        assert(u * th == th * u) by (nonlinear_arith);
    }
    assert(t0 * p == p * t0) by (nonlinear_arith);
    assert(g + p * t0 + th * u <= now as int);
    // maximality
    let s = Slot { period: p as u64, thread: th as u8 };
    assert forall|s2: Slot|
        slot_valid(cfg, s2) && slot_timestamp(cfg, s2) <= now as int implies slot_le(s2, s) by {
        let p2 = s2.period as int;
        let th2 = s2.thread as int;
        if !slot_le(s2, s) {
            // then s strictly precedes s2
            if p2 == p {
                // same period, s2.thread >= th + 1
                assert(th2 * u >= (th + 1) * u) by (nonlinear_arith)
                    requires
                        u >= 1,
                        th2 >= th + 1,
                ;
                assert((th + 1) * u == th * u + u) by (nonlinear_arith);
                // th * u + u > r, since r == u * th + r % u and r % u < u
                assert(slot_timestamp(cfg, s2) > now as int);
            } else {
                // s2.period >= p + 1
                assert(p2 * t0 >= (p + 1) * t0) by (nonlinear_arith)
                    requires
                        t0 >= 1,
                        p2 >= p + 1,
                ;
                assert((p + 1) * t0 == p * t0 + t0) by (nonlinear_arith);
                assert(th2 * u >= 0) by (nonlinear_arith)
                    requires
                        th2 >= 0,
                        u >= 1,
                ;
                assert(slot_timestamp(cfg, s2) > now as int);
            }
        }
    }
}

/// The latest slot that has begun at wall-clock time `now`, or `None` if
/// `now` lies before genesis.  Deterministic and side-effect-free: the only
/// time input is the compensated wall-clock reading supplied by the caller.
pub fn latest_slot_at_timestamp(cfg: &ApiConfig, now: u64) -> (r: Option<Slot>)
    requires
        cfg.wf(),
    ensures
        r is None <==> (now as int) < cfg.genesis_timestamp as int,
        r == (if (now as int) < cfg.genesis_timestamp as int {
            Option::<Slot>::None
        } else {
            Option::<Slot>::Some(latest_base_slot(*cfg, now))
        }),
        match r {
            Some(s) => {
                &&& slot_valid(*cfg, s)
                &&& slot_timestamp(*cfg, s) <= now as int
                &&& forall|s2: Slot|
                    slot_valid(*cfg, s2) && slot_timestamp(*cfg, s2) <= now as int ==> slot_le(
                        s2,
                        s,
                    )
            },
            None => true,
        },
{
    if now < cfg.genesis_timestamp {
        return None;
    }
    proof {
        lemma_thread_unit(*cfg);
        lemma_latest_slot(*cfg, now);
    }
    let elapsed: u64 = now - cfg.genesis_timestamp;
    let period: u64 = elapsed / cfg.t0;
    let rem: u64 = elapsed % cfg.t0;
    let unit: u64 = cfg.t0 / (cfg.thread_count as u64);
    let thread: u8 = (rem / unit) as u8;
    Some(Slot { period, thread })
}

/// Core claim behind the first-slot computation for a time at least one
/// millisecond past genesis: correctness and minimality of the computed
/// slot coordinates.
proof fn lemma_first_slot(cfg: ApiConfig, t: u64)
    requires
        cfg.wf(),
        t > cfg.genesis_timestamp,
    ensures
        ({
            let e = t as int - cfg.genesis_timestamp as int;
            let p = e / cfg.t0 as int;
            let r = e % cfg.t0 as int;
            let th = if r == 0 {
                0
            } else {
                (r - 1) / thread_unit(cfg) + 1
            };
            let s = if th < cfg.thread_count as int {
                Slot { period: p as u64, thread: th as u8 }
            } else {
                Slot { period: (p + 1) as u64, thread: 0 }
            };
            &&& 0 <= p <= e
            &&& (r != 0 ==> p < e)
            &&& 0 <= th <= cfg.thread_count
            &&& slot_timestamp(cfg, s) >= t as int
            &&& slot_valid(cfg, s)
            &&& forall|s2: Slot|
                slot_valid(cfg, s2) && slot_timestamp(cfg, s2) >= t as int ==> slot_le(s, s2)
        }),
{
    let g = cfg.genesis_timestamp as int;
    let t0 = cfg.t0 as int;
    let tc = cfg.thread_count as int;
    let u = thread_unit(cfg);
    let e = t as int - g;
    let p = e / t0;
    let r = e % t0;
    lemma_thread_unit(cfg);
    lemma_fundamental_div_mod(e, t0);
    lemma_mod_division_less_than_divisor(e, t0);
    assert(e == t0 * p + r);
    assert(0 <= r < t0);
    assert(p >= 0) by {
        if p < 0 {
            assert(t0 * p <= t0 * -1) by (nonlinear_arith)
                requires
                    t0 >= 1,
                    p <= -1,
            ;
        }
    }
    assert(p <= e) by {
        if p > e {
            assert(t0 * p >= t0 * (e + 1)) by (nonlinear_arith)
                requires
                    t0 >= 1,
                    p >= e + 1,
            ;
            assert(t0 * (e + 1) >= e + 1) by (nonlinear_arith)
                requires
                    t0 >= 1,
                    e + 1 >= 0,
            ;
        }
    }
    assert(t0 * p == p * t0) by (nonlinear_arith);
    assert(r != 0 ==> p < e) by {
        if r != 0 && p >= e {
            assert(t0 * p >= p) by (nonlinear_arith)
                requires
                    t0 >= 1,
                    p >= 0,
            ;
        }
    }
    if r == 0 {
        // slot (p, 0) begins exactly at t
        let s = Slot { period: p as u64, thread: 0u8 };
        assert(slot_timestamp(cfg, s) == t as int);
        assert forall|s2: Slot|
            slot_valid(cfg, s2) && slot_timestamp(cfg, s2) >= t as int implies slot_le(s, s2) by {
            let p2 = s2.period as int;
            let th2 = s2.thread as int;
            if !slot_le(s, s2) {
                // s2.period < p, so s2 ends before the start of period p
                assert(p2 * t0 <= (p - 1) * t0) by (nonlinear_arith)
                    requires
                        t0 >= 1,
                        p2 <= p - 1,
                ;
                assert((p - 1) * t0 == p * t0 - t0) by (nonlinear_arith);
                assert(th2 * u <= (tc - 1) * u) by (nonlinear_arith)
                    requires
                        u >= 1,
                        th2 <= tc - 1,
                ;
                assert((tc - 1) * u == tc * u - u) by (nonlinear_arith);
                assert(slot_timestamp(cfg, s2) < t as int);
            }
        }
    } else {
        let q = (r - 1) / u;
        let m = (r - 1) % u;
        let th = q + 1;
        lemma_fundamental_div_mod(r - 1, u);
        lemma_mod_division_less_than_divisor(r - 1, u);
        assert(r - 1 == u * q + m);
        assert(0 <= m < u);
        assert(q >= 0) by {
            if q < 0 {
                assert(u * q <= u * -1) by (nonlinear_arith)
                    requires
                        u >= 1,
                        q <= -1,
                ;
            }
        }
        // th * u >= r and (th - 1) * u < r: th is the least thread count
        // whose offset reaches r
        assert((q + 1) * u == u * q + u) by (nonlinear_arith);
        assert(th * u >= r);
        assert(q * u == u * q) by (nonlinear_arith);
        assert(q * u < r);
        // th <= tc, since r <= t0 == tc * u
        assert(th <= tc) by {
            if th > tc {
                assert(u * q >= u * tc) by (nonlinear_arith)
                    requires
                        u >= 1,
                        q >= tc,
                ;
                assert(u * tc == tc * u) by (nonlinear_arith);
            }
        }
        if th < tc {
            let s = Slot { period: p as u64, thread: th as u8 };
            assert(slot_timestamp(cfg, s) == g + p * t0 + th * u);
            assert(slot_timestamp(cfg, s) >= t as int);
            assert forall|s2: Slot|
                slot_valid(cfg, s2) && slot_timestamp(cfg, s2) >= t as int implies slot_le(
                s,
                s2,
            ) by {
                let p2 = s2.period as int;
                let th2 = s2.thread as int;
                if !slot_le(s, s2) {
                    if p2 == p {
                        // s2.thread <= th - 1 == q
                        assert(th2 * u <= q * u) by (nonlinear_arith)
                            requires
                                u >= 1,
                                th2 <= q,
                        ;
                        assert(slot_timestamp(cfg, s2) < t as int);
                    } else {
                        assert(p2 * t0 <= (p - 1) * t0) by (nonlinear_arith)
                            requires
                                t0 >= 1,
                                p2 <= p - 1,
                        ;
                        assert((p - 1) * t0 == p * t0 - t0) by (nonlinear_arith);
                        assert(th2 * u <= (tc - 1) * u) by (nonlinear_arith)
                            requires
                                u >= 1,
                                th2 <= tc - 1,
                        ;
                        assert((tc - 1) * u == tc * u - u) by (nonlinear_arith);
                        assert(slot_timestamp(cfg, s2) < t as int);
                    }
                }
            }
        } else {
            // every thread of period p starts before t: roll to period p + 1
            let s = Slot { period: (p + 1) as u64, thread: 0u8 };
            assert((p + 1) * t0 == p * t0 + t0) by (nonlinear_arith);
            assert(slot_timestamp(cfg, s) >= t as int);
            assert forall|s2: Slot|
                slot_valid(cfg, s2) && slot_timestamp(cfg, s2) >= t as int implies slot_le(
                s,
                s2,
            ) by {
                let p2 = s2.period as int;
                let th2 = s2.thread as int;
                if !slot_le(s, s2) {
                    // s2.period <= p, so s2 begins before t, since every
                    // thread offset stays under r
                    assert(p2 * t0 <= p * t0) by (nonlinear_arith)
                        requires
                            t0 >= 1,
                            p2 <= p,
                    ;
                    assert(th2 * u <= (tc - 1) * u) by (nonlinear_arith)
                        requires
                            u >= 1,
                            th2 <= tc - 1,
                    ;
                    assert((tc - 1) * u == tc * u - u) by (nonlinear_arith);
                    // (tc - 1) * u == t0 - u <= t0 - (r - q * u) < r ... roll out:
                    assert(u >= r - q * u);
                    assert(slot_timestamp(cfg, s2) < t as int);
                }
            }
        }
    }
}

/// The earliest slot beginning at or after wall-clock time `t`.  Such a slot
/// always exists and is representable, so no failure path is needed.
pub fn first_slot_on_or_after(cfg: &ApiConfig, t: u64) -> (s: Slot)
    requires
        cfg.wf(),
    ensures
        slot_valid(*cfg, s),
        slot_timestamp(*cfg, s) >= t as int,
        forall|s2: Slot|
            slot_valid(*cfg, s2) && slot_timestamp(*cfg, s2) >= t as int ==> slot_le(s, s2),
{
    if t <= cfg.genesis_timestamp {
        let s = Slot { period: 0, thread: 0 };
        proof {
            assert forall|s2: Slot|
                slot_valid(*cfg, s2) && slot_timestamp(*cfg, s2) >= t as int implies slot_le(
                s,
                s2,
            ) by {}
        }
        return s;
    }
    proof {
        lemma_thread_unit(*cfg);
        lemma_first_slot(*cfg, t);
    }
    let elapsed: u64 = t - cfg.genesis_timestamp;
    let period: u64 = elapsed / cfg.t0;
    let rem: u64 = elapsed % cfg.t0;
    if rem == 0 {
        return Slot { period, thread: 0 };
    }
    let unit: u64 = cfg.t0 / (cfg.thread_count as u64);
    let th: u64 = (rem - 1) / unit + 1;
    if th < cfg.thread_count as u64 {
        Slot { period, thread: th as u8 }
    } else {
        Slot { period: period + 1, thread: 0 }
    }
}

/// Converts an optional wall-clock window `[start, end)` into a slot window:
/// each present bound becomes the earliest slot beginning at or after it.
pub fn time_range_to_slot_range(cfg: &ApiConfig, start: Option<u64>, end: Option<u64>) -> (r: (
    Option<Slot>,
    Option<Slot>,
))
    requires
        cfg.wf(),
    ensures
        r.0 is Some <==> start is Some,
        r.1 is Some <==> end is Some,
        match (start, r.0) {
            (Some(t), Some(s)) => slot_valid(*cfg, s) && slot_timestamp(*cfg, s) >= t as int
                && forall|s2: Slot|
                slot_valid(*cfg, s2) && slot_timestamp(*cfg, s2) >= t as int ==> slot_le(s, s2),
            _ => true,
        },
        match (end, r.1) {
            (Some(t), Some(s)) => slot_valid(*cfg, s) && slot_timestamp(*cfg, s) >= t as int
                && forall|s2: Slot|
                slot_valid(*cfg, s2) && slot_timestamp(*cfg, s2) >= t as int ==> slot_le(s, s2),
            _ => true,
        },
{
    let start_slot = match start {
        Some(t) => Some(first_slot_on_or_after(cfg, t)),
        None => None,
    };
    let end_slot = match end {
        Some(t) => Some(first_slot_on_or_after(cfg, t)),
        None => None,
    };
    (start_slot, end_slot)
}

/// The slot immediately after `s`, or a time-overflow error when the period
/// index cannot grow any further.
pub fn next_slot(cfg: &ApiConfig, s: Slot) -> (r: Result<Slot, ApiError>)
    requires
        cfg.wf(),
        slot_valid(*cfg, s),
    ensures
        ({
            if s.thread as int + 1 < cfg.thread_count as int {
                r == Ok::<Slot, ApiError>(Slot { period: s.period, thread: (s.thread + 1) as u8 })
            } else if s.period < u64::MAX {
                r == Ok::<Slot, ApiError>(Slot { period: (s.period + 1) as u64, thread: 0 })
            } else {
                r == Err::<Slot, ApiError>(ApiError::TimeOverflow)
            }
        }),
{
    if s.thread + 1 < cfg.thread_count {
        Ok(Slot { period: s.period, thread: s.thread + 1 })
    } else if s.period < u64::MAX {
        Ok(Slot { period: s.period + 1, thread: 0 })
    } else {
        Err(ApiError::TimeOverflow)
    }
}

/// The cycle a slot belongs to: its period divided by the cycle length.
pub fn slot_cycle(cfg: &ApiConfig, s: Slot) -> (c: u64)
    requires
        cfg.wf(),
    ensures
        c == s.period as int / cfg.periods_per_cycle as int,
{
    s.period / cfg.periods_per_cycle
}

} // verus!
