use vstd::prelude::*;
use vstd::arithmetic::power2::{lemma2_to64, lemma_pow2_strictly_increases, lemma_pow2_unfold, pow2};

use crate::model::BuildStatus;

verus! {

/// The most consecutive failures a target's backoff counts.
pub const MAX_COUNTED_FAILURES: i32 = 31;

/// What a finished job does to its target's failure backoff.
#[derive(Debug, Clone, Copy, PartialEq, Eq)]
pub enum BackoffUpdate {
    /// A success clears the backoff.
    Clear,
    /// Neither success nor failure: the backoff stays as it is.
    Unchanged,
    /// A failure records one more consecutive failure and the wait before
    /// the target is eligible again.
    Record { consecutive_failures: i32, backoff_seconds: i64 },
}

/// Why the backoff settings were refused.
#[derive(Debug, Clone, Copy, PartialEq, Eq)]
pub enum BackoffError {
    BaseOutOfRange,
    MaxOutOfRange,
}

impl BackoffError {
    /// The message the daemon reports for this refusal.
    pub fn message(&self) -> (res: &'static str)
        ensures
            res@ == match *self {
                BackoffError::BaseOutOfRange => "base backoff seconds out of range"@,
                BackoffError::MaxOutOfRange => "max backoff seconds out of range"@,
            },
    {
        match self {
            BackoffError::BaseOutOfRange => "base backoff seconds out of range",
            BackoffError::MaxOutOfRange => "max backoff seconds out of range",
        }
    }
}

/// The consecutive failure count after one more failure: one more than
/// before (saturating), kept within `1..=31`.
pub open spec fn next_failure_count(previous: Option<i32>) -> int {
    match previous {
        None => 1,
        Some(p) => {
            let bumped = if p == i32::MAX {
                p as int
            } else {
                p + 1
            };
            if bumped < 1 {
                1
            } else if bumped > MAX_COUNTED_FAILURES {
                MAX_COUNTED_FAILURES as int
            } else {
                bumped
            }
        },
    }
}

/// The wait after `failures` consecutive failures: the base doubled for
/// every failure after the first (saturating at `i64::MAX`), capped at the
/// maximum.
pub open spec fn backoff_for(failures: int, base: int, max: int) -> int {
    let grown = base * pow2((failures - 1) as nat);
    let saturated = if grown > i64::MAX {
        i64::MAX as int
    } else {
        grown
    };
    if saturated < max {
        saturated
    } else {
        max
    }
}

/// Decides the backoff update for a finished job of a target whose record
/// holds `previous_failures` consecutive failures (none without a record).
pub fn plan_failure_backoff(
    status: BuildStatus,
    previous_failures: Option<i32>,
    base_backoff_seconds: u64,
    max_backoff_seconds: u64,
) -> (res: Result<BackoffUpdate, BackoffError>)
    ensures
        base_backoff_seconds > i64::MAX ==> res == Err::<BackoffUpdate, BackoffError>(BackoffError::BaseOutOfRange),
        base_backoff_seconds <= i64::MAX && max_backoff_seconds > i64::MAX ==> res == Err::<BackoffUpdate, BackoffError>(
            BackoffError::MaxOutOfRange,
        ),
        base_backoff_seconds <= i64::MAX && max_backoff_seconds <= i64::MAX ==> res == Ok::<BackoffUpdate, BackoffError>(
            if status is Succeeded {
                BackoffUpdate::Clear
            } else if status is Failed || status is TimedOut {
                BackoffUpdate::Record {
                    consecutive_failures: next_failure_count(previous_failures) as i32,
                    backoff_seconds: backoff_for(
                        next_failure_count(previous_failures),
                        base_backoff_seconds as int,
                        max_backoff_seconds as int,
                    ) as i64,
                }
            } else {
                BackoffUpdate::Unchanged
            },
        ),
{
    if base_backoff_seconds > 0x7fff_ffff_ffff_ffffu64 {
        return Err(BackoffError::BaseOutOfRange);
    }
    if max_backoff_seconds > 0x7fff_ffff_ffff_ffffu64 {
        return Err(BackoffError::MaxOutOfRange);
    }
    let base = base_backoff_seconds as i64;
    let max = max_backoff_seconds as i64;
    match status {
        BuildStatus::Succeeded => Ok(BackoffUpdate::Clear),
        BuildStatus::Failed | BuildStatus::TimedOut => {
            let bumped: i32 = match previous_failures {
                None => 1,
                Some(p) => if p == 0x7fff_ffffi32 {
                    p
                } else {
                    p + 1
                },
            };
            let failures: i32 = if bumped < 1 {
                1
            } else if bumped > MAX_COUNTED_FAILURES {
                MAX_COUNTED_FAILURES
            } else {
                bumped
            };
            let exponent = (failures - 1) as u32;
            let mut factor: i64 = 1;
            let mut k: u32 = 0;
            proof {
                lemma2_to64();
            }
            while k < exponent
                invariant
                    exponent <= 30,
                    k <= exponent,
                    factor == pow2(k as nat),
                    pow2(30) == 0x4000_0000,
                decreases exponent - k,
            {
                proof {
                    lemma_pow2_unfold((k + 1) as nat);
                    if k + 1 < 30 {
                        lemma_pow2_strictly_increases((k + 1) as nat, 30);
                    }
                }
                factor = factor * 2;
                k = k + 1;
            }
            let grown: i64 = match base.checked_mul(factor) {
                Some(value) => value,
                None => 0x7fff_ffff_ffff_ffffi64,
            };
            let backoff = if grown < max {
                grown
            } else {
                max
            };
            proof {
                assert(base >= 0 && factor > 0);
                assert(base * factor >= 0) by (nonlinear_arith)
                    requires
                        base >= 0,
                        factor > 0,
                ;
            }
            Ok(BackoffUpdate::Record { consecutive_failures: failures, backoff_seconds: backoff })
        },
        _ => Ok(BackoffUpdate::Unchanged),
    }
}

/// Consecutive failures stay within `1..=31` and the wait never exceeds the
/// configured maximum.
pub proof fn lemma_backoff_bounded(previous: Option<i32>, base: int, max: int)
    requires
        0 <= base <= i64::MAX,
        0 <= max <= i64::MAX,
    ensures
        1 <= next_failure_count(previous) <= MAX_COUNTED_FAILURES,
        0 <= backoff_for(next_failure_count(previous), base, max) <= max,
{
    let n = next_failure_count(previous);
    let e = (n - 1) as nat;
    assert(pow2(e) > 0) by {
        vstd::arithmetic::power2::lemma_pow2_pos(e);
    }
    assert(base * pow2(e) >= 0) by (nonlinear_arith)
        requires
            base >= 0,
            pow2(e) > 0,
    ;
}

/// The wait never shrinks as consecutive failures accumulate.
pub proof fn lemma_backoff_monotone(n1: int, n2: int, base: int, max: int)
    requires
        1 <= n1 <= n2,
        0 <= base,
    ensures
        backoff_for(n1, base, max) <= backoff_for(n2, base, max),
{
    let e1 = (n1 - 1) as nat;
    let e2 = (n2 - 1) as nat;
    if e1 < e2 {
        lemma_pow2_strictly_increases(e1, e2);
    }
    assert(pow2(e1) <= pow2(e2));
    assert(base * pow2(e1) <= base * pow2(e2)) by (nonlinear_arith)
        requires
            base >= 0,
            pow2(e1) <= pow2(e2),
    ;
}

/// Consecutive failures never decrease while a target keeps failing.
pub proof fn lemma_failure_count_grows(previous: i32)
    requires
        1 <= previous <= MAX_COUNTED_FAILURES,
    ensures
        next_failure_count(Some(previous)) >= previous,
        previous < MAX_COUNTED_FAILURES ==> next_failure_count(Some(previous)) == previous + 1,
{
}

/// The wait after `failures` consecutive failures is the base wait
/// doubled once for every failure after the first, exactly, while that is
/// below the maximum; from the point where it would reach the maximum, it
/// is the maximum.
pub proof fn lemma_backoff_doubles_until_max(failures: int, base: int, max: int)
    requires
        1 <= failures <= MAX_COUNTED_FAILURES,
        0 <= base <= i64::MAX,
        0 <= max <= i64::MAX,
    ensures
        base * pow2((failures - 1) as nat) < max ==> backoff_for(failures, base, max) == base * pow2(
            (failures - 1) as nat,
        ),
        base * pow2((failures - 1) as nat) >= max ==> backoff_for(failures, base, max) == max,
        backoff_for(1, base, max) == if base < max {
            base
        } else {
            max
        },
{
    vstd::arithmetic::power2::lemma2_to64();
    assert(pow2(0) == 1);
    assert(base * pow2(0) == base);
    assert(((1 - 1) as nat) == 0);
}

/// One more failure doubles the wait, up to the maximum: a wait below the
/// maximum is followed by twice that wait, or by the maximum when twice
/// would reach it.
pub proof fn lemma_next_backoff_doubles(failures: int, base: int, max: int)
    requires
        1 <= failures,
        0 <= base <= i64::MAX,
        0 <= max <= i64::MAX,
        backoff_for(failures, base, max) < max,
    ensures
        backoff_for(failures + 1, base, max) == if 2 * backoff_for(failures, base, max) < max {
            2 * backoff_for(failures, base, max)
        } else {
            max
        },
{
    let e = (failures - 1) as nat;
    lemma_pow2_unfold(e + 1);
    assert(pow2(e + 1) == 2 * pow2(e));
    assert(base * pow2(e + 1) == 2 * (base * pow2(e))) by (nonlinear_arith)
        requires
            pow2(e + 1) == 2 * pow2(e),
    ;
    assert(((failures + 1) - 1) as nat == e + 1);
}

} // verus!
