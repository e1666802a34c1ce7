//! Fees of the router contract, in the integer arithmetic of the contract itself.
use vstd::prelude::*;

use crate::amount::Amount;
use crate::bytes::Address;
use crate::error::EncodingError;
use crate::table::Table;
use crate::types::quote::FeeBreakdown;

verus! {

/// The number of basis points in the whole.
pub const BPS: u64 = 10_000;

/// The number of slippage units in the whole.
pub const SLIPPAGE_UNITS: u64 = 1_000_000;

/// The router fees that one client pays, in fee units.
#[derive(Debug, Clone, Copy, PartialEq, Eq, Structural)]
pub struct FeeRates {
    /// Fee on the swap output.
    pub on_output: u32,
    /// The router's share of the client's own fee.
    pub on_client_fee: u32,
    /// The number of fee units in the whole.
    pub max_fee_units: u64,
}

impl FeeRates {
    pub fn new(on_output: u32, on_client_fee: u32, max_fee_units: u64) -> (r: Self)
        ensures
            r == (FeeRates { on_output, on_client_fee, max_fee_units }),
    {
        FeeRates { on_output, on_client_fee, max_fee_units }
    }

    /// Fee on the swap output.
    pub fn on_output(&self) -> (r: u32)
        ensures
            r == self.on_output,
    {
        self.on_output
    }

    /// The router's share of the client's own fee.
    pub fn on_client_fee(&self) -> (r: u32)
        ensures
            r == self.on_client_fee,
    {
        self.on_client_fee
    }

    /// The number of fee units in the whole.
    pub fn max_fee_units(&self) -> (r: u64)
        ensures
            r == self.max_fee_units,
    {
        self.max_fee_units
    }

    /// The number of fee units in a basis point.
    pub fn fee_units_per_bps(&self) -> (r: u64)
        ensures
            r == self.max_fee_units / BPS,
    {
        self.max_fee_units / BPS
    }

    /// Fees can be reckoned by these rates: there are fee units, or a fee that is refused for want of
    /// them.
    pub open spec fn spec_is_usable(self) -> bool {
        self.max_fee_units > 0 || self.on_output > 0 || self.on_client_fee > 0
    }

    /// Whether fees can be reckoned by these rates.
    pub fn is_usable(&self) -> (r: bool)
        ensures
            r == self.spec_is_usable(),
    {
        self.max_fee_units > 0 || self.on_output > 0 || self.on_client_fee > 0
    }
}

/// The router fees on record: the default, and those of clients with their own.
#[derive(Debug)]
pub struct RouterFees {
    /// The number of fee units in the whole.
    pub max_fee_units: u64,
    pub on_output: u32,
    pub on_client_fee: u32,
    /// Fee on output and share of the client fee, by client.
    pub custom: Table<Address, (u32, u32)>,
}

impl RouterFees {
    pub fn new(
        max_fee_units: u64,
        on_output: u32,
        on_client_fee: u32,
        custom: Table<Address, (u32, u32)>,
    ) -> (r: Self)
        ensures
            r == (RouterFees { max_fee_units, on_output, on_client_fee, custom }),
    {
        RouterFees { max_fee_units, on_output, on_client_fee, custom }
    }

    /// The rates of a client: its own where it has them, otherwise the default.
    pub open spec fn rates_of(self, client: Seq<u8>) -> FeeRates {
        if self.custom@.dom().contains(client) {
            FeeRates {
                on_output: self.custom@[client].0,
                on_client_fee: self.custom@[client].1,
                max_fee_units: self.max_fee_units,
            }
        } else {
            FeeRates {
                on_output: self.on_output,
                on_client_fee: self.on_client_fee,
                max_fee_units: self.max_fee_units,
            }
        }
    }

    /// The rates of a client.
    pub fn fees_for(&self, client: &Address) -> (r: FeeRates)
        ensures
            r == self.rates_of(client@),
    {
        match self.custom.get(client) {
            Some(own) => FeeRates::new(own.0, own.1, self.max_fee_units),
            None => FeeRates::new(self.on_output, self.on_client_fee, self.max_fee_units),
        }
    }
}

/// A client fee in fee units.
pub open spec fn scaled_client_fee(client_fee_bps: u16, rates: FeeRates) -> nat {
    client_fee_bps as nat * (rates.max_fee_units / BPS) as nat
}

/// The fees on an output are refused where they take more than the whole of it, or where the router
/// takes more than the whole of the client fee.
pub open spec fn fee_fault(client_fee_bps: u16, rates: FeeRates) -> Option<EncodingError> {
    if scaled_client_fee(client_fee_bps, rates) + rates.on_output > rates.max_fee_units {
        Some(
            EncodingError::FeeTooHigh {
                client_fee_bps,
                fee_on_output: rates.on_output,
                max_fee_units: rates.max_fee_units,
            },
        )
    } else if rates.on_client_fee > rates.max_fee_units {
        Some(
            EncodingError::ClientShareTooHigh {
                fee_on_client_fee: rates.on_client_fee,
                max_fee_units: rates.max_fee_units,
            },
        )
    } else {
        None
    }
}

/// The whole client fee on an output.
pub open spec fn total_client_fee(output: nat, client_fee_bps: u16, rates: FeeRates) -> nat {
    output * scaled_client_fee(client_fee_bps, rates) / rates.max_fee_units as nat
}

/// What the router takes of the client fee.
pub open spec fn router_share(output: nat, client_fee_bps: u16, rates: FeeRates) -> nat {
    output * scaled_client_fee(client_fee_bps, rates) * rates.on_client_fee as nat / (
    rates.max_fee_units as nat * rates.max_fee_units as nat)
}

/// What the router takes of the output.
pub open spec fn output_fee(output: nat, rates: FeeRates) -> nat {
    output * rates.on_output as nat / rates.max_fee_units as nat
}

/// What is left of an output after the fees.
pub open spec fn after_fees(output: nat, client_fee_bps: u16, rates: FeeRates) -> int {
    output - total_client_fee(output, client_fee_bps, rates) - output_fee(output, rates)
}

/// The slippage that is tolerated on what is left.
pub open spec fn slippage_of(left: int, slippage: u64) -> int {
    left * slippage / SLIPPAGE_UNITS as int
}

/// The slippage that is tolerated is part of what the fees leave of an output.
pub open spec fn slippage_fits(
    output: nat,
    client_fee_bps: u16,
    slippage: u64,
    rates: FeeRates,
) -> bool {
    let left = after_fees(output, client_fee_bps, rates);
    slippage_of(left, slippage) <= left
}

/// The least that the user receives of an output: what is left after fees and slippage.
pub open spec fn least_received(
    output: nat,
    client_fee_bps: u16,
    slippage: u64,
    rates: FeeRates,
) -> int {
    let left = after_fees(output, client_fee_bps, rates);
    left - slippage_of(left, slippage)
}

/// Whether a breakdown is that of an output.
pub open spec fn is_breakdown(
    output: nat,
    client_fee_bps: u16,
    slippage: u64,
    rates: FeeRates,
    fees: FeeBreakdown,
) -> bool {
    let share = router_share(output, client_fee_bps, rates);
    let left = after_fees(output, client_fee_bps, rates);
    &&& fees.router_fee@ == share + output_fee(output, rates)
    &&& fees.client_fee@ == total_client_fee(output, client_fee_bps, rates) - share
    &&& fees.max_slippage@ == slippage_of(left, slippage)
    &&& fees.min_amount_received@ == least_received(output, client_fee_bps, slippage, rates)
    &&& fees.swaps_hash is None
}

/// The fees leave something: the router's share is part of the client fee, and both fees together
/// are at most the output.
pub proof fn fees_are_bounded(output: nat, client_fee_bps: u16, rates: FeeRates)
    requires
        rates.max_fee_units > 0,
        fee_fault(client_fee_bps, rates) is None,
    ensures
        router_share(output, client_fee_bps, rates) <= total_client_fee(
            output,
            client_fee_bps,
            rates,
        ),
        after_fees(output, client_fee_bps, rates) >= 0,
{
    let max = rates.max_fee_units as nat;
    let scaled = scaled_client_fee(client_fee_bps, rates);
    let numerator = output * scaled;
    let share = rates.on_client_fee as nat;
    let fee = rates.on_output as nat;
    vstd::arithmetic::div_mod::lemma_div_denominator(
        (numerator * share) as int,
        max as int,
        max as int,
    );
    assert((numerator * share) / max <= numerator) by {
        assert(numerator * share <= numerator * max) by (nonlinear_arith)
            requires
                share <= max,
        ;
        vstd::arithmetic::div_mod::lemma_div_is_ordered(
            (numerator * share) as int,
            (numerator * max) as int,
            max as int,
        );
        vstd::arithmetic::div_mod::lemma_div_multiples_vanish(numerator as int, max as int);
        vstd::arithmetic::mul::lemma_mul_is_commutative(numerator as int, max as int);
    }
    vstd::arithmetic::div_mod::lemma_div_is_ordered(
        ((numerator * share) / max) as int,
        numerator as int,
        max as int,
    );
    let client = total_client_fee(output, client_fee_bps, rates);
    let router = output_fee(output, rates);
    vstd::arithmetic::div_mod::lemma_fundamental_div_mod(numerator as int, max as int);
    vstd::arithmetic::div_mod::lemma_fundamental_div_mod((output * fee) as int, max as int);
    let a = numerator as int % max as int;
    let b = (output * fee) as int % max as int;
    assert(client + router <= output) by (nonlinear_arith)
        requires
            output * scaled == max * client + a,
            output * fee == max * router + b,
            a >= 0,
            b >= 0,
            scaled + fee <= max,
            max > 0,
    ;
}

/// Slippage of at most the whole is always part of what the fees leave.
pub proof fn slippage_up_to_the_whole_fits(
    output: nat,
    client_fee_bps: u16,
    slippage: u64,
    rates: FeeRates,
)
    requires
        rates.max_fee_units > 0,
        fee_fault(client_fee_bps, rates) is None,
        slippage <= SLIPPAGE_UNITS,
    ensures
        slippage_fits(output, client_fee_bps, slippage, rates),
{
    fees_are_bounded(output, client_fee_bps, rates);
    let left = after_fees(output, client_fee_bps, rates);
    assert(0 <= left * slippage <= left * 1_000_000) by (nonlinear_arith)
        requires
            left >= 0,
            0 <= slippage <= 1_000_000,
    ;
    vstd::arithmetic::div_mod::lemma_div_is_ordered(
        left * slippage,
        left * 1_000_000,
        1_000_000,
    );
    vstd::arithmetic::div_mod::lemma_div_multiples_vanish(left, 1_000_000);
}

/// Whether fees may be taken: they take at most the whole of an output, and the router at most the
/// whole of the client fee.
pub(crate) fn check_rates(client_fee_bps: u16, fee_rates: FeeRates) -> (r: Result<(), EncodingError>)
    ensures
        r == match fee_fault(client_fee_bps, fee_rates) {
            Some(error) => Err(error),
            None => Ok(()),
        },
{
    let units: u64 = fee_rates.fee_units_per_bps();
    assert(client_fee_bps * units <= 0xffff * 0xffff_ffff_ffff_ffff) by (nonlinear_arith)
        requires
            client_fee_bps <= 0xffff,
            units <= 0xffff_ffff_ffff_ffff,
    ;
    let scaled: u128 = client_fee_bps as u128 * units as u128;
    if scaled + fee_rates.on_output as u128 > fee_rates.max_fee_units as u128 {
        return Err(
            EncodingError::FeeTooHigh {
                client_fee_bps,
                fee_on_output: fee_rates.on_output,
                max_fee_units: fee_rates.max_fee_units,
            },
        );
    }
    if fee_rates.on_client_fee as u64 > fee_rates.max_fee_units {
        return Err(
            EncodingError::ClientShareTooHigh {
                fee_on_client_fee: fee_rates.on_client_fee,
                max_fee_units: fee_rates.max_fee_units,
            },
        );
    }
    Ok(())
}

/// Takes the fees of an output: what the router gets, what the client gets, and what is left.
pub(crate) fn take_fees(swap_output: &Amount, client_fee_bps: u16, fee_rates: FeeRates) -> (r: (
    Amount,
    Amount,
    Amount,
))
    requires
        fee_rates.max_fee_units > 0,
        fee_fault(client_fee_bps, fee_rates) is None,
    ensures
        r.0@ == router_share(swap_output@, client_fee_bps, fee_rates) + output_fee(
            swap_output@,
            fee_rates,
        ),
        r.1@ == total_client_fee(swap_output@, client_fee_bps, fee_rates) - router_share(
            swap_output@,
            client_fee_bps,
            fee_rates,
        ),
        r.2@ == after_fees(swap_output@, client_fee_bps, fee_rates),
{
    proof {
        fees_are_bounded(swap_output@, client_fee_bps, fee_rates);
    }
    let units: u64 = fee_rates.fee_units_per_bps();
    assert(scaled_client_fee(client_fee_bps, fee_rates) == client_fee_bps * units);
    let scaled: u64 = client_fee_bps as u64 * units;
    let max: Amount = Amount::from_u64(fee_rates.max_fee_units);
    let numerator: Amount = swap_output.times(&Amount::from_u64(scaled));
    let whole_client_fee: Amount = numerator.divided_by(&max);
    proof {
        vstd::arithmetic::mul::lemma_mul_strictly_positive(max@ as int, max@ as int);
    }
    let share: Amount = numerator.times(&Amount::from_u64(fee_rates.on_client_fee as u64)).divided_by(
        &max.times(&max),
    );
    let client_portion: Amount = whole_client_fee.minus(&share);
    let on_output: Amount = swap_output.times(
        &Amount::from_u64(fee_rates.on_output as u64),
    ).divided_by(&max);
    let router_fee: Amount = share.plus(&on_output);
    let left: Amount = swap_output.minus(&client_portion).minus(&router_fee);
    (router_fee, client_portion, left)
}

/// The slippage that is tolerated on what is left.
pub(crate) fn take_slippage(left: &Amount, slippage: u64) -> (r: Amount)
    ensures
        r@ == slippage_of(left@ as int, slippage),
{
    left.times(&Amount::from_u64(slippage)).divided_by(&Amount::from_u64(SLIPPAGE_UNITS))
}

/// The fees on an output, and the least that the user receives.
///
/// `slippage` is the tolerance in millionths, and part of what the fees leave. Fails where the fees take more than the whole, on which
/// the contract would revert.
pub fn calculate_fee_breakdown(
    swap_output: &Amount,
    client_fee_bps: u16,
    slippage: u64,
    fee_rates: FeeRates,
) -> (r: Result<FeeBreakdown, EncodingError>)
    requires
        fee_rates.spec_is_usable(),
        fee_fault(client_fee_bps, fee_rates) is None ==> slippage_fits(
            swap_output@,
            client_fee_bps,
            slippage,
            fee_rates,
        ),
    ensures
        match fee_fault(client_fee_bps, fee_rates) {
            Some(error) => r == Err::<FeeBreakdown, EncodingError>(error),
            None => r matches Ok(fees) && is_breakdown(
                swap_output@,
                client_fee_bps,
                slippage,
                fee_rates,
                fees,
            ),
        },
{
    if let Err(error) = check_rates(client_fee_bps, fee_rates) {
        return Err(error);
    }
    let (router_fee, client_portion, left) = take_fees(swap_output, client_fee_bps, fee_rates);
    let slippage_amount: Amount = take_slippage(&left, slippage);
    let received: Amount = left.minus(&slippage_amount);
    Ok(FeeBreakdown::new(router_fee, client_portion, slippage_amount, received))
}

/// The fees, the slippage and what the user receives add up to the output, so the user never receives
/// more than the output.
pub proof fn breakdown_adds_up(
    output: nat,
    client_fee_bps: u16,
    slippage: u64,
    rates: FeeRates,
    fees: FeeBreakdown,
)
    requires
        is_breakdown(output, client_fee_bps, slippage, rates, fees),
    ensures
        fees.router_fee@ + fees.client_fee@ + fees.max_slippage@ + fees.min_amount_received@ == output,
        fees.min_amount_received@ <= output,
{
}

/// Without fees and without slippage the user receives the output.
pub proof fn no_fees_no_loss(output: nat, rates: FeeRates, fees: FeeBreakdown)
    requires
        rates.max_fee_units > 0,
        rates.on_output == 0,
        is_breakdown(output, 0, 0, rates, fees),
    ensures
        fees.min_amount_received@ == output,
        fees.router_fee@ == 0,
        fees.client_fee@ == 0,
{
    let max = rates.max_fee_units as nat;
    assert(output * 0 == 0 && 0 * rates.on_client_fee as nat == 0 && output * scaled_client_fee(
        0,
        rates,
    ) == 0) by (nonlinear_arith)
        requires
            scaled_client_fee(0, rates) == 0,
    ;
    vstd::arithmetic::div_mod::lemma_div_basics(max as int);
    vstd::arithmetic::mul::lemma_mul_strictly_positive(max as int, max as int);
    vstd::arithmetic::div_mod::lemma_div_basics((max * max) as int);
    vstd::arithmetic::div_mod::lemma_div_basics(SLIPPAGE_UNITS as int);
}

/// `part` is what `product` makes in whole units, rounded down.
pub open spec fn rounds_down(part: int, product: int, unit: int) -> bool {
    part * unit <= product && product < (part + 1) * unit
}

proof fn quotients_round_down(product: int, unit: int)
    requires
        product >= 0,
        unit > 0,
    ensures
        rounds_down(product / unit, product, unit),
        product / unit >= 0,
{
    vstd::arithmetic::div_mod::lemma_fundamental_div_mod(product, unit);
    vstd::arithmetic::div_mod::lemma_div_pos_is_pos(product, unit);
    let part = product / unit;
    let rest = product % unit;
    assert(part * unit <= product && product < (part + 1) * unit) by (nonlinear_arith)
        requires
            product == unit * part + rest,
            0 <= rest < unit,
    ;
}

/// The fees on an output are shares of it in fee units, each rounded down: the client asks for its basis
/// points, of which the router takes its share, and the router takes its own fee. The slippage is its
/// share of what they leave, in millionths and rounded down, and the user receives the rest.
pub proof fn fees_are_shares_of_the_output(
    output: nat,
    client_fee_bps: u16,
    slippage: u64,
    rates: FeeRates,
    fees: FeeBreakdown,
)
    requires
        rates.max_fee_units > 0,
        fee_fault(client_fee_bps, rates) is None,
        is_breakdown(output, client_fee_bps, slippage, rates, fees),
    ensures
        ({
            let max = rates.max_fee_units as int;
            let asked = output * (client_fee_bps as int * (max / 10_000));
            exists|whole: int, share: int, own: int|
                {
                    &&& #[trigger] rounds_down(whole, asked, max)
                    &&& #[trigger] rounds_down(share, asked * rates.on_client_fee, max * max)
                    &&& #[trigger] rounds_down(own, output * rates.on_output, max)
                    &&& fees.client_fee@ == whole - share
                    &&& fees.router_fee@ == share + own
                    &&& rounds_down(
                        fees.max_slippage@ as int,
                        (output - whole - own) * slippage,
                        1_000_000,
                    )
                    &&& fees.min_amount_received@ == output - whole - own - fees.max_slippage@
                }
        }),
{
    let max = rates.max_fee_units as int;
    let scaled = client_fee_bps as int * (max / 10_000);
    let asked = output * scaled;
    let whole = total_client_fee(output, client_fee_bps, rates) as int;
    let share = router_share(output, client_fee_bps, rates) as int;
    let own = output_fee(output, rates) as int;
    assert(scaled == scaled_client_fee(client_fee_bps, rates));
    assert(scaled >= 0) by (nonlinear_arith)
        requires
            scaled == client_fee_bps as int * (max / 10_000),
            max > 0,
    ;
    assert(asked >= 0 && asked * rates.on_client_fee >= 0 && output * rates.on_output >= 0 && max * max
        > 0) by (nonlinear_arith)
        requires
            asked == output * scaled,
            output >= 0,
            scaled >= 0,
            rates.on_client_fee >= 0,
            rates.on_output >= 0,
            max > 0,
    ;
    quotients_round_down(asked, max);
    quotients_round_down(asked * rates.on_client_fee, max * max);
    quotients_round_down(output * rates.on_output, max);
    fees_are_bounded(output, client_fee_bps, rates);
    let left = output - whole - own;
    assert(left * slippage >= 0) by (nonlinear_arith)
        requires
            left >= 0,
            slippage >= 0,
    ;
    quotients_round_down(left * slippage, 1_000_000);
    assert(rounds_down(whole, asked, max) && rounds_down(
        share,
        asked * rates.on_client_fee,
        max * max,
    ) && rounds_down(own, output * rates.on_output, max));
}

/// Fees are refused exactly where the client's basis points and the router's fee together are more than
/// all fee units, or the router takes more than all of the client fee; the first reason comes first.
pub proof fn fees_above_the_whole_are_refused(client_fee_bps: u16, rates: FeeRates)
    ensures
        fee_fault(client_fee_bps, rates) == if client_fee_bps as int * (rates.max_fee_units as int
            / 10_000) + rates.on_output > rates.max_fee_units {
            Some(
                EncodingError::FeeTooHigh {
                    client_fee_bps,
                    fee_on_output: rates.on_output,
                    max_fee_units: rates.max_fee_units,
                },
            )
        } else if rates.on_client_fee > rates.max_fee_units {
            Some(
                EncodingError::ClientShareTooHigh {
                    fee_on_client_fee: rates.on_client_fee,
                    max_fee_units: rates.max_fee_units,
                },
            )
        } else {
            None
        },
{
}

/// A client with rates of its own pays those, and every other client the default; the fee units are the
/// same for all.
pub proof fn clients_pay_their_own_rates(fees: RouterFees, client: Seq<u8>)
    ensures
        fees.rates_of(client).max_fee_units == fees.max_fee_units,
        fees.custom@.dom().contains(client) ==> fees.rates_of(client).on_output
            == fees.custom@[client].0 && fees.rates_of(client).on_client_fee
            == fees.custom@[client].1,
        !fees.custom@.dom().contains(client) ==> fees.rates_of(client).on_output == fees.on_output
            && fees.rates_of(client).on_client_fee == fees.on_client_fee,
{
}

} // verus!
