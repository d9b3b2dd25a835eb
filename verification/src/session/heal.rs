//! Silent healing after the stabilization gate.
//!
//! Voice connections degrade. While recording, the stabilization gate's verdict
//! is checked every few seconds; an unhealthy one leads to a rejoin, and too
//! many failed ones in a row to a restart of the session.

use crate::session::stabilization::GateVerdict;
use vstd::prelude::*;

verus! {

/// How often health is checked, as a span in nanoseconds.
pub const HEAL_TICK: u128 = 5_000_000_000;

/// Failures in a row after which the session is restarted.
pub const HEAL_FAIL_BUDGET: u32 = 3;

/// The pause between leaving and rejoining, as a span in nanoseconds.
pub const REJOIN_PAUSE: u128 = 2_000_000_000;

/// The pause between rejoining and looking again, as a span in nanoseconds.
pub const SETTLE_PAUSE: u128 = 3_000_000_000;

/// What a health check came to.
#[derive(Debug, Clone, Copy, PartialEq, Eq, Structural)]
pub enum HealVerdict {
    /// Nothing to do.
    Healthy,
    /// A rejoin was made, and the session goes on.
    Healed,
    /// Rejoining has failed too often.
    BudgetExhausted,
}

/// What a rejoin came to.
#[derive(Debug, Clone, Copy, PartialEq, Eq, Structural)]
pub enum Rejoin {
    /// The channel could not be joined.
    Failed,
    /// The channel was joined; the verdict after the settling pause.
    Joined { after: GateVerdict },
}

/// The first look: a healthy connection clears the failures and needs nothing
/// more; for an unhealthy one a rejoin is due (`None`).
pub fn check(verdict: GateVerdict, consecutive_failures: &mut u32) -> (v: Option<HealVerdict>)
    ensures
        verdict is Healthy ==> v == Some(HealVerdict::Healthy) && *final(consecutive_failures) == 0,
        verdict is Unhealthy ==> v is None && *final(consecutive_failures) == *old(
            consecutive_failures,
        ),
{
    match verdict {
        GateVerdict::Healthy => {
            *consecutive_failures = 0;
            Some(HealVerdict::Healthy)
        },
        GateVerdict::Unhealthy => None,
    }
}

/// The failures in a row after a rejoin.
pub open spec fn failures_after(rejoin: Rejoin, failures: u32) -> int {
    if rejoin == (Rejoin::Joined { after: GateVerdict::Healthy }) {
        0
    } else {
        failures + 1
    }
}

/// After the rejoin: health clears the failures; anything else is one failure
/// more, and exhausts the budget at the third.
pub fn after_rejoin(rejoin: Rejoin, consecutive_failures: &mut u32) -> (v: HealVerdict)
    requires
        *old(consecutive_failures) < u32::MAX,
    ensures
        *final(consecutive_failures) == failures_after(rejoin, *old(consecutive_failures)),
        v == (if failures_after(rejoin, *old(consecutive_failures)) >= HEAL_FAIL_BUDGET {
            HealVerdict::BudgetExhausted
        } else {
            HealVerdict::Healed
        }),
{
    match rejoin {
        Rejoin::Joined { after: GateVerdict::Healthy } => {
            *consecutive_failures = 0;
            HealVerdict::Healed
        },
        _ => {
            *consecutive_failures = *consecutive_failures + 1;
            if *consecutive_failures >= HEAL_FAIL_BUDGET {
                HealVerdict::BudgetExhausted
            } else {
                HealVerdict::Healed
            }
        },
    }
}

/// The failures in a row after a row of rejoins.
pub open spec fn failures_in_a_row(rejoins: Seq<Rejoin>) -> int
    decreases rejoins.len(),
{
    if rejoins.len() == 0 {
        0
    } else if rejoins.last() == (Rejoin::Joined { after: GateVerdict::Healthy }) {
        0
    } else {
        failures_in_a_row(rejoins.drop_last()) + 1
    }
}

/// The budget is exhausted exactly when the last rejoins, as many as the budget
/// allows, all failed: a single success starts the count anew.
pub proof fn law_budget_counts_failures_in_a_row(rejoins: Seq<Rejoin>, budget: int)
    requires
        0 < budget,
    ensures
        0 <= failures_in_a_row(rejoins) <= rejoins.len(),
        failures_in_a_row(rejoins) >= budget <==> rejoins.len() >= budget && forall|i: int|
            rejoins.len() - budget <= i < rejoins.len() ==> #[trigger] rejoins[i] != (
            Rejoin::Joined { after: GateVerdict::Healthy }),
    decreases rejoins.len(), budget,
{
    let well = Rejoin::Joined { after: GateVerdict::Healthy };
    if rejoins.len() > 0 {
        let n = rejoins.len() - 1;
        let front = rejoins.drop_last();
        assert(rejoins.last() == rejoins[n]);
        assert forall|i: int| 0 <= i < n implies front[i] == rejoins[i] by {}
        if budget > 1 {
            law_budget_counts_failures_in_a_row(front, budget - 1);
            if failures_in_a_row(rejoins) >= budget {
                assert forall|i: int| rejoins.len() - budget <= i < rejoins.len() implies
                    #[trigger] rejoins[i] != well by {
                    if i < n {
                        assert(front[i] != well);
                    }
                }
            }
            if rejoins.len() >= budget && (forall|i: int|
                rejoins.len() - budget <= i < rejoins.len() ==> #[trigger] rejoins[i] != well) {
                assert(rejoins[n] != well);
                assert forall|i: int| front.len() - (budget - 1) <= i < front.len() implies
                    #[trigger] front[i] != well by {
                    assert(rejoins[i] != well);
                }
            }
        } else {
            law_budget_counts_failures_in_a_row(front, 1);
        }
    }
}

} // verus!
