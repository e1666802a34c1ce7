//! Comparing a solver's output with what settled.
use vstd::prelude::*;

use crate::amount::Amount;
use crate::types::quote::SignedAmount;

verus! {

/// Basis points in the whole.
pub const WHOLE_BPS: u64 = 10_000;

/// What a solver would have delivered for a trade.
#[derive(Debug)]
pub struct SolvedAmount {
    pub amount_out: Amount,
    /// Output after the solver's own estimated gas cost.
    pub amount_out_net_gas: Amount,
    pub gas_estimate: Amount,
    /// The complete quote, where it was captured.
    pub quote_json: Option<String>,
}

/// The outcome of solving a trade again.
#[derive(Debug)]
pub enum Outcome {
    /// The solver has found a quote.
    Solved(SolvedAmount),
    /// The solver has found none, for the reason given.
    Unsolvable(String),
}

/// Whether the solver would have beaten what settled.
#[derive(Debug, Clone, Copy, PartialEq, Eq, Structural)]
pub enum Verdict {
    /// The solver would have delivered strictly more, net of gas.
    Win,
    /// The solver would have delivered as much or less, or it cannot be compared.
    Loss,
    /// The solver could not solve the trade at all.
    Unsolvable,
}

/// By how much an output differs from what settled, as a share of what settled.
#[derive(Debug)]
pub struct BpsDelta {
    gain: SignedAmount,
    settled: Amount,
}

impl BpsDelta {
    #[verifier::type_invariant]
    spec fn well_formed(self) -> bool {
        self.settled@ > 0
    }

    /// By how much the output exceeds what settled; below zero where it falls short.
    pub closed spec fn spec_gain(self) -> int {
        self.gain@
    }

    /// What settled.
    pub closed spec fn spec_settled(self) -> nat {
        self.settled@
    }

    /// By how much an output differs from what settled; cannot be said where nothing settled.
    pub fn new(amount_out: &Amount, settled: &Amount) -> (r: Option<Self>)
        ensures
            r is Some == (settled@ > 0),
            r matches Some(delta) ==> delta.spec_gain() == amount_out@ - settled@
                && delta.spec_settled() == settled@,
    {
        if settled.is_zero() {
            return None;
        }
        let gain: SignedAmount = if settled.at_most(amount_out) {
            SignedAmount { negative: false, magnitude: amount_out.minus(settled) }
        } else {
            SignedAmount { negative: true, magnitude: settled.minus(amount_out) }
        };
        Some(BpsDelta { gain, settled: settled.clone() })
    }

    /// By how much the output exceeds what settled; below zero where it falls short.
    pub fn gain(&self) -> (r: &SignedAmount)
        ensures
            r@ == self.spec_gain(),
    {
        &self.gain
    }

    /// What settled.
    pub fn settled(&self) -> (r: &Amount)
        ensures
            r@ == self.spec_settled(),
            r@ > 0,
    {
        proof {
            use_type_invariant(self);
        }
        &self.settled
    }

    /// Whether the output exceeds what settled.
    pub fn is_positive(&self) -> (r: bool)
        ensures
            r == (self.spec_gain() > 0),
    {
        !self.gain.negative && !self.gain.magnitude.is_zero()
    }

    /// Whether the output differs by less than another does: gain by gain, each as a share of what
    /// settled.
    pub fn is_below(&self, other: &BpsDelta) -> (r: bool)
        ensures
            r == falls_below(*self, *other),
    {
        proof {
            use_type_invariant(self);
            use_type_invariant(other);
        }
        let left: Amount = self.gain.magnitude.times(&other.settled);
        let right: Amount = other.gain.magnitude.times(&self.settled);
        proof {
            scaled_sign(self.gain@, self.gain.magnitude@, other.settled@);
            scaled_sign(other.gain@, other.gain.magnitude@, self.settled@);
        }
        if self.gain.negative {
            if other.gain.negative {
                right.less_than(&left)
            } else {
                !(left.is_zero() && right.is_zero())
            }
        } else if other.gain.negative {
            false
        } else {
            left.less_than(&right)
        }
    }
}

impl Clone for BpsDelta {
    fn clone(&self) -> (r: Self)
        ensures
            r == *self,
    {
        proof {
            use_type_invariant(self);
        }
        BpsDelta {
            gain: SignedAmount {
                negative: self.gain.negative,
                magnitude: self.gain.magnitude.clone(),
            },
            settled: self.settled.clone(),
        }
    }
}

/// A signed number times a natural one has its sign, and the product of the magnitudes.
proof fn scaled_sign(signed: int, magnitude: nat, factor: nat)
    requires
        signed == magnitude || signed == -magnitude,
    ensures
        signed == magnitude ==> signed * factor == magnitude * factor,
        signed == -magnitude ==> signed * factor == -(magnitude * factor),
        magnitude * factor >= 0,
{
    assert(-(magnitude as int) * factor == -(magnitude * factor)) by (nonlinear_arith);
    assert(magnitude * factor >= 0) by (nonlinear_arith);
}

/// The delta `a` is below `b`: its gain is the smaller share of what settled.
pub open spec fn falls_below(a: BpsDelta, b: BpsDelta) -> bool {
    a.spec_gain() * b.spec_settled() < b.spec_gain() * a.spec_settled()
}

/// Deltas of an output against what settled, above zero where the solver does better.
#[derive(Debug)]
pub struct Deltas {
    /// Of the output, ignoring gas.
    pub raw_bps: Option<BpsDelta>,
    /// Of the output after the solver's own gas cost.
    pub net_bps: Option<BpsDelta>,
}

/// Whether a delta is the one of an output against what settled.
pub open spec fn is_delta(amount_out: nat, settled: nat, delta: Option<BpsDelta>) -> bool {
    &&& delta is Some == (settled > 0)
    &&& delta matches Some(d) ==> d.spec_gain() == amount_out - settled && d.spec_settled()
        == settled
}

/// Whether deltas are those of an outcome against what settled.
pub open spec fn are_deltas(outcome: Outcome, settled: nat, deltas: Deltas) -> bool {
    match outcome {
        Outcome::Solved(solved) => {
            &&& is_delta(solved.amount_out@, settled, deltas.raw_bps)
            &&& is_delta(solved.amount_out_net_gas@, settled, deltas.net_bps)
        },
        Outcome::Unsolvable(_) => deltas.raw_bps is None && deltas.net_bps is None,
    }
}

/// The verdict on an outcome: a win delivers strictly more than what settled, net of gas. Where nothing
/// settled there is nothing to compare with, and no win.
pub open spec fn verdict_on(outcome: Outcome, settled: nat) -> Verdict {
    match outcome {
        Outcome::Solved(solved) => if settled > 0 && solved.amount_out_net_gas@ > settled {
            Verdict::Win
        } else {
            Verdict::Loss
        },
        Outcome::Unsolvable(_) => Verdict::Unsolvable,
    }
}

/// Computes the deltas of an outcome against what settled, with and without gas.
pub fn compare(outcome: &Outcome, settled_amount_out: &Amount) -> (r: Deltas)
    ensures
        are_deltas(*outcome, settled_amount_out@, r),
{
    match outcome {
        Outcome::Solved(solved) => Deltas {
            raw_bps: BpsDelta::new(&solved.amount_out, settled_amount_out),
            net_bps: BpsDelta::new(&solved.amount_out_net_gas, settled_amount_out),
        },
        Outcome::Unsolvable(_) => Deltas { raw_bps: None, net_bps: None },
    }
}

/// Judges an outcome by its delta net of gas.
pub fn verdict(outcome: &Outcome, settled_amount_out: &Amount) -> (r: Verdict)
    ensures
        r == verdict_on(*outcome, settled_amount_out@),
{
    match outcome {
        Outcome::Solved(_) => match compare(outcome, settled_amount_out).net_bps {
            Some(delta) => if delta.is_positive() {
                Verdict::Win
            } else {
                Verdict::Loss
            },
            None => Verdict::Loss,
        },
        Outcome::Unsolvable(_) => Verdict::Unsolvable,
    }
}

/// Whether a quote fills so little of what settled that the trade was not served.
pub open spec fn is_partial(solved: SolvedAmount, settled: nat, min_fill_bps: u64) -> bool {
    solved.amount_out@ * WHOLE_BPS < settled * min_fill_bps
}

/// Whether an outcome is another one in which a partial fill counts as no quote.
pub open spec fn is_served(
    outcome: Outcome,
    settled: nat,
    min_fill_bps: u64,
    r: Outcome,
) -> bool {
    match outcome {
        Outcome::Solved(solved) => if is_partial(solved, settled, min_fill_bps) {
            r matches Outcome::Unsolvable(reason) && reason@ == "partial fill"@
        } else {
            r == outcome
        },
        Outcome::Unsolvable(_) => r == outcome,
    }
}

/// Counts a quote for less than a given share of what settled as no quote: the solver does not cover the
/// trade.
pub fn served(outcome: Outcome, settled_amount_out: &Amount, min_fill_bps: u64) -> (r: Outcome)
    ensures
        is_served(outcome, settled_amount_out@, min_fill_bps, r),
{
    let partial: bool = match &outcome {
        Outcome::Solved(solved) => {
            let filled: Amount = solved.amount_out.times(&Amount::from_u64(WHOLE_BPS));
            let wanted: Amount = settled_amount_out.times(&Amount::from_u64(min_fill_bps));
            filled.less_than(&wanted)
        },
        Outcome::Unsolvable(_) => false,
    };
    if partial {
        Outcome::Unsolvable("partial fill".to_string())
    } else {
        outcome
    }
}

/// A trade is a win exactly when its delta net of gas is above zero, and unsolvable exactly when there
/// is no quote.
pub proof fn verdict_follows_net_delta(outcome: Outcome, settled: nat, deltas: Deltas)
    requires
        are_deltas(outcome, settled, deltas),
    ensures
        verdict_on(outcome, settled) == Verdict::Win <==> (deltas.net_bps matches Some(d)
            && d.spec_gain() > 0),
        verdict_on(outcome, settled) == Verdict::Unsolvable <==> outcome is Unsolvable,
{
}

/// One delta is below another exactly where its output is the smaller multiple of what settled.
pub proof fn deltas_compare_by_multiples(
    a: BpsDelta,
    out_a: nat,
    settled_a: nat,
    b: BpsDelta,
    out_b: nat,
    settled_b: nat,
)
    requires
        is_delta(out_a, settled_a, Some(a)),
        is_delta(out_b, settled_b, Some(b)),
    ensures
        settled_a > 0 && settled_b > 0,
        falls_below(a, b) <==> out_a * settled_b < out_b * settled_a,
{
    assert((out_a - settled_a) * settled_b == out_a * settled_b - settled_a * settled_b)
        by (nonlinear_arith);
    assert((out_b - settled_b) * settled_a == out_b * settled_a - settled_a * settled_b)
        by (nonlinear_arith);
}

/// A quote wins exactly where something settled and it delivers strictly more net of gas; any other quote
/// loses. Without a quote there is neither.
pub proof fn wins_deliver_more_net_of_gas(outcome: Outcome, settled: nat)
    ensures
        outcome matches Outcome::Solved(solved) ==> {
            &&& verdict_on(outcome, settled) == Verdict::Win <==> solved.amount_out_net_gas@ > settled
                && settled >= 1
            &&& verdict_on(outcome, settled) == Verdict::Loss <==> solved.amount_out_net_gas@ <= settled
                || settled == 0
        },
        outcome is Unsolvable ==> verdict_on(outcome, settled) == Verdict::Unsolvable,
{
}

/// The deltas of a quote are what it delivers beyond what settled, before gas and net of it. There are none
/// without a quote, nor where nothing settled.
pub proof fn deltas_are_gains_on_what_settled(outcome: Outcome, settled: nat, deltas: Deltas)
    requires
        are_deltas(outcome, settled, deltas),
    ensures
        deltas.raw_bps is Some <==> outcome is Solved && settled > 0,
        deltas.net_bps is Some <==> outcome is Solved && settled > 0,
        outcome matches Outcome::Solved(solved) ==> settled > 0 ==> {
            &&& deltas.raw_bps->Some_0.spec_gain() + settled == solved.amount_out@
            &&& deltas.net_bps->Some_0.spec_gain() + settled == solved.amount_out_net_gas@
            &&& deltas.raw_bps->Some_0.spec_settled() == settled
            &&& deltas.net_bps->Some_0.spec_settled() == settled
        },
{
}

/// A quote counts exactly where its output, before gas, is at least the given share of what settled, in
/// parts of ten thousand. One that does not is a partial fill.
pub proof fn quotes_count_from_the_least_fill_on(
    solved: SolvedAmount,
    settled: nat,
    min_fill_bps: u64,
    r: Outcome,
)
    requires
        is_served(Outcome::Solved(solved), settled, min_fill_bps, r),
    ensures
        solved.amount_out@ * 10_000 >= settled * min_fill_bps ==> r == Outcome::Solved(solved),
        solved.amount_out@ * 10_000 < settled * min_fill_bps ==> (r matches Outcome::Unsolvable(reason)
            && reason@ == "partial fill"@),
{
}

} // verus!
