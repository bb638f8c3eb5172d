//! Constant-product curve: the amounts that a deposit, a withdrawal or a
//! swap resolves to, given the pool's live reserves.
//!
//! Deposits round up, so the pool never collects less than its share;
//! withdrawals and swap outputs round down, so it never pays out more.
use vstd::prelude::*;

use crate::error::EscrowError;

verus! {

/// Basis points in a whole: a fee of `BPS_DENOMINATOR` takes everything.
pub const BPS_DENOMINATOR: u64 = 10_000;

/// `a / b` rounded up.
pub open spec fn ceil_div(a: int, b: int) -> int {
    (a + b - 1) / b
}

/// What a deposit of `liquidity` units into a pool holding
/// `(reserve_x, reserve_y)` against `supply` outstanding units takes.
pub open spec fn deposit_amounts_spec(
    reserve_x: u64,
    reserve_y: u64,
    supply: u64,
    liquidity: u64,
    max_x: u64,
    max_y: u64,
) -> Result<(u64, u64), EscrowError> {
    if supply == 0 {
        Ok((max_x, max_y))
    } else {
        let x = ceil_div(reserve_x * liquidity, supply as int);
        let y = ceil_div(reserve_y * liquidity, supply as int);
        if x > u64::MAX || y > u64::MAX {
            Err(EscrowError::ArithmeticOverflow)
        } else {
            Ok((x as u64, y as u64))
        }
    }
}

/// What burning `liquidity` of `supply` outstanding units pays out of a pool
/// holding `(reserve_x, reserve_y)`.
pub open spec fn withdraw_amounts_spec(reserve_x: u64, reserve_y: u64, supply: u64, liquidity: u64)
    -> Result<(u64, u64), EscrowError> {
    if liquidity == supply {
        Ok((reserve_x, reserve_y))
    } else if liquidity > supply {
        Err(EscrowError::InvalidArgument)
    } else {
        Ok(
            (
                (reserve_x * liquidity / supply as int) as u64,
                (reserve_y * liquidity / supply as int) as u64,
            ),
        )
    }
}

/// The legs of a swap.
#[derive(Clone, Copy, Debug, PartialEq, Eq, Structural)]
pub struct SwapQuote {
    /// What the trader pays into the input vault, fee included.
    pub amount_in: u64,
    /// The part of `amount_in` kept as the fee.
    pub fee: u64,
    /// The part of `amount_in` priced against the curve.
    pub amount_in_after_fee: u64,
    /// What the trader receives from the output vault.
    pub amount_out: u64,
}

/// The fee, in tokens, on `amount` at `fee_bps` basis points, rounded up
/// so that the pool never collects less than its rate.
pub open spec fn fee_of(amount: u64, fee_bps: u16) -> int {
    ceil_div(amount * fee_bps, BPS_DENOMINATOR as int)
}

/// What the curve gives out for `net_in` tokens put in, rounded down.
pub open spec fn output_of(reserve_in: u64, reserve_out: u64, net_in: int) -> int {
    if reserve_in + net_in == 0 {
        0
    } else {
        reserve_out * net_in / (reserve_in + net_in)
    }
}

/// The outcome of swapping `amount_in` into a pool that holds `reserve_in`
/// of the input asset and `reserve_out` of the output asset.
pub open spec fn swap_spec(
    reserve_in: u64,
    reserve_out: u64,
    fee_bps: u16,
    amount_in: u64,
    min_out: u64,
) -> Result<SwapQuote, EscrowError> {
    let fee = fee_of(amount_in, fee_bps);
    let net_in = amount_in - fee;
    let out = output_of(reserve_in, reserve_out, net_in);
    if fee > amount_in {
        Err(EscrowError::ArithmeticOverflow)
    } else if out < min_out {
        Err(EscrowError::SlippageExceeded)
    } else if reserve_in + amount_in > u64::MAX {
        Err(EscrowError::ArithmeticOverflow)
    } else if net_in == 0 || out == 0 {
        Err(EscrowError::ZeroAmount)
    } else {
        Ok(
            SwapQuote {
                amount_in,
                fee: fee as u64,
                amount_in_after_fee: net_in as u64,
                amount_out: out as u64,
            },
        )
    }
}

proof fn lemma_product_fits(a: u64, b: u64)
    ensures
        0 <= a * b <= u64::MAX * u64::MAX,
{
    assert(0 <= a * b <= u64::MAX * u64::MAX) by (nonlinear_arith)
        requires
            0 <= a <= u64::MAX,
            0 <= b <= u64::MAX,
    ;
}

/// `reserve * liquidity / supply`, rounded up, if it fits in 64 bits.
fn scale_up(reserve: u64, liquidity: u64, supply: u64) -> (r: Option<u64>)
    requires
        supply > 0,
    ensures
        r == (if ceil_div(reserve * liquidity, supply as int) <= u64::MAX {
            Some(ceil_div(reserve * liquidity, supply as int) as u64)
        } else {
            None
        }),
{
    proof {
        lemma_product_fits(reserve, liquidity);
    }
    let product = (reserve as u128) * (liquidity as u128);
    let q = (product + (supply as u128 - 1)) / (supply as u128);
    if q > u64::MAX as u128 {
        None
    } else {
        Some(q as u64)
    }
}

/// `reserve * liquidity / supply`, rounded down, where `liquidity < supply`.
fn scale_down(reserve: u64, liquidity: u64, supply: u64) -> (r: u64)
    requires
        liquidity < supply,
    ensures
        r == reserve * liquidity / supply as int,
{
    proof {
        lemma_product_fits(reserve, liquidity);
        assert(reserve * liquidity / supply as int <= reserve) by (nonlinear_arith)
            requires
                0 <= liquidity < supply,
                0 <= reserve,
        {
            assert(reserve * liquidity <= reserve * supply);
            vstd::arithmetic::div_mod::lemma_div_is_ordered(
                reserve * liquidity,
                reserve * supply,
                supply as int,
            );
            vstd::arithmetic::div_mod::lemma_div_by_multiple(reserve as int, supply as int);
        }
    }
    let product = (reserve as u128) * (liquidity as u128);
    (product / (supply as u128)) as u64
}

proof fn lemma_output_bounds(reserve_in: u64, reserve_out: u64, net_in: int)
    requires
        net_in > 0,
    ensures
        0 <= output_of(reserve_in, reserve_out, net_in) <= reserve_out,
{
    let d = reserve_in + net_in;
    assert(0 <= reserve_out * net_in <= reserve_out * d) by (nonlinear_arith)
        requires
            0 < net_in <= d,
            0 <= reserve_out,
    ;
    vstd::arithmetic::div_mod::lemma_div_is_ordered(reserve_out * net_in, reserve_out * d, d);
    vstd::arithmetic::div_mod::lemma_div_by_multiple(reserve_out as int, d);
    vstd::arithmetic::div_mod::lemma_div_pos_is_pos(reserve_out * net_in, d);
}

/// The amounts that a deposit of `liquidity` units takes from the depositor.
///
/// Into an empty pool (`supply == 0`) the depositor's maxima are taken as
/// they are: they set the pool's initial price. Otherwise each reserve is
/// scaled by `liquidity / supply`, rounded up.
pub fn deposit_amounts(
    reserve_x: u64,
    reserve_y: u64,
    supply: u64,
    liquidity: u64,
    max_x: u64,
    max_y: u64,
) -> (r: Result<(u64, u64), EscrowError>)
    ensures
        r == deposit_amounts_spec(reserve_x, reserve_y, supply, liquidity, max_x, max_y),
{
    if supply == 0 {
        return Ok((max_x, max_y));
    }
    match (scale_up(reserve_x, liquidity, supply), scale_up(reserve_y, liquidity, supply)) {
        (Some(x), Some(y)) => Ok((x, y)),
        _ => Err(EscrowError::ArithmeticOverflow),
    }
}

/// The amounts that burning `liquidity` units pays out.
///
/// Burning the whole supply pays out the whole reserves, leaving no dust.
/// Otherwise each reserve is scaled by `liquidity / supply`, rounded down.
/// Burning more than the supply fails with `InvalidArgument`.
pub fn withdraw_amounts(reserve_x: u64, reserve_y: u64, supply: u64, liquidity: u64) -> (r: Result<
    (u64, u64),
    EscrowError,
>)
    ensures
        r == withdraw_amounts_spec(reserve_x, reserve_y, supply, liquidity),
{
    if liquidity == supply {
        Ok((reserve_x, reserve_y))
    } else if liquidity > supply {
        Err(EscrowError::InvalidArgument)
    } else {
        Ok((scale_down(reserve_x, liquidity, supply), scale_down(reserve_y, liquidity, supply)))
    }
}

/// Prices a swap of `amount_in` against the curve.
///
/// The fee, `fee_bps` basis points of `amount_in` rounded up, stays in the
/// pool; the rest is priced so that the product of the reserves does not
/// fall: `amount_out = reserve_out * net / (reserve_in + net)`, rounded down.
/// An output below `min_out` fails with `SlippageExceeded`; otherwise an
/// input that the input vault cannot hold fails with `ArithmeticOverflow`,
/// and a zero leg with `ZeroAmount`.
pub fn swap(reserve_in: u64, reserve_out: u64, fee_bps: u16, amount_in: u64, min_out: u64) -> (r:
    Result<SwapQuote, EscrowError>)
    ensures
        r == swap_spec(reserve_in, reserve_out, fee_bps, amount_in, min_out),
{
    proof {
        assert(0 <= amount_in * fee_bps <= u64::MAX * 0xffff) by (nonlinear_arith)
            requires
                0 <= amount_in <= u64::MAX,
                0 <= fee_bps <= 0xffff,
        ;
    }
    let fee = ((amount_in as u128) * (fee_bps as u128) + (BPS_DENOMINATOR as u128 - 1)) / (
    BPS_DENOMINATOR as u128);
    if fee > amount_in as u128 {
        return Err(EscrowError::ArithmeticOverflow);
    }
    let net_in = amount_in - fee as u64;
    let out = if net_in == 0 {
        0
    } else {
        proof {
            lemma_product_fits(reserve_out, net_in);
            lemma_output_bounds(reserve_in, reserve_out, net_in as int);
        }
        ((reserve_out as u128) * (net_in as u128) / (reserve_in as u128 + net_in as u128)) as u64
    };
    if out < min_out {
        return Err(EscrowError::SlippageExceeded);
    }
    if reserve_in as u128 + amount_in as u128 > u64::MAX as u128 {
        return Err(EscrowError::ArithmeticOverflow);
    }
    if net_in == 0 || out == 0 {
        return Err(EscrowError::ZeroAmount);
    }
    Ok(SwapQuote { amount_in, fee: fee as u64, amount_in_after_fee: net_in, amount_out: out })
}

proof fn lemma_ceil_div_bounds(a: int, b: int)
    requires
        a >= 0,
        b > 0,
    ensures
        a <= b * ceil_div(a, b) < a + b,
{
    vstd::arithmetic::div_mod::lemma_fundamental_div_mod(a + b - 1, b);
    vstd::arithmetic::div_mod::lemma_mod_bound(a + b - 1, b);
    vstd::arithmetic::mul::lemma_mul_is_commutative(b, ceil_div(a, b));
}

/// After the pool is bootstrapped, a deposit follows the reserves' ratio:
/// the cross products `x * reserve_y` and `y * reserve_x` differ by no more
/// than one unit of a reserve, and neither asset is under-collected.
pub proof fn lemma_deposit_proportional(
    reserve_x: u64,
    reserve_y: u64,
    supply: u64,
    liquidity: u64,
    max_x: u64,
    max_y: u64,
)
    requires
        supply > 0,
        deposit_amounts_spec(reserve_x, reserve_y, supply, liquidity, max_x, max_y) is Ok,
    ensures
        ({
            let (x, y) = deposit_amounts_spec(
                reserve_x,
                reserve_y,
                supply,
                liquidity,
                max_x,
                max_y,
            )->Ok_0;
            &&& x * reserve_y - y * reserve_x <= reserve_y
            &&& y * reserve_x - x * reserve_y <= reserve_x
            &&& x * supply >= reserve_x * liquidity
            &&& y * supply >= reserve_y * liquidity
        }),
{
    let (x, y) = deposit_amounts_spec(reserve_x, reserve_y, supply, liquidity, max_x, max_y)->Ok_0;
    let s = supply as int;
    let rx = reserve_x as int;
    let ry = reserve_y as int;
    let l = liquidity as int;
    lemma_product_fits(reserve_x, liquidity);
    lemma_product_fits(reserve_y, liquidity);
    lemma_ceil_div_bounds(rx * l, s);
    lemma_ceil_div_bounds(ry * l, s);
    let xi = x as int;
    let yi = y as int;
    assert(xi * ry - yi * rx <= ry && yi * rx - xi * ry <= rx) by (nonlinear_arith)
        requires
            s > 0,
            rx >= 0,
            ry >= 0,
            rx * l <= s * xi < rx * l + s,
            ry * l <= s * yi < ry * l + s,
    {
        let ex = s * xi - rx * l;
        let ey = s * yi - ry * l;
        assert(s * (xi * ry - yi * rx) == ry * ex - rx * ey);
        assert(ry * ex <= ry * s);
        assert(rx * ey <= rx * s);
        assert(s * (xi * ry - yi * rx) <= s * ry);
        assert(s * (yi * rx - xi * ry) <= s * rx);
    }
    assert(xi * s >= rx * l && yi * s >= ry * l) by (nonlinear_arith)
        requires
            rx * l <= s * xi,
            ry * l <= s * yi,
    ;
}

/// Into an empty pool a deposit takes exactly the depositor's maxima.
pub proof fn lemma_first_deposit_takes_maxima(
    reserve_x: u64,
    reserve_y: u64,
    liquidity: u64,
    max_x: u64,
    max_y: u64,
)
    ensures
        deposit_amounts_spec(reserve_x, reserve_y, 0, liquidity, max_x, max_y) == Ok::<
            (u64, u64),
            EscrowError,
        >((max_x, max_y)),
{
}

/// Burning the whole supply pays out the whole reserves: none is left.
pub proof fn lemma_full_withdrawal_empties_pool(reserve_x: u64, reserve_y: u64, supply: u64)
    ensures
        withdraw_amounts_spec(reserve_x, reserve_y, supply, supply) is Ok,
        ({
            let (x, y) = withdraw_amounts_spec(reserve_x, reserve_y, supply, supply)->Ok_0;
            reserve_x - x == 0 && reserve_y - y == 0
        }),
{
}

/// A swap never lowers the product of the reserves: once the trader's full
/// input is in and the output is out, `reserve_in * reserve_out` is at least
/// what it was.
pub proof fn lemma_swap_keeps_product(
    reserve_in: u64,
    reserve_out: u64,
    fee_bps: u16,
    amount_in: u64,
    min_out: u64,
)
    requires
        swap_spec(reserve_in, reserve_out, fee_bps, amount_in, min_out) is Ok,
    ensures
        ({
            let q = swap_spec(reserve_in, reserve_out, fee_bps, amount_in, min_out)->Ok_0;
            (reserve_in + q.amount_in) * (reserve_out - q.amount_out) >= reserve_in * reserve_out
        }),
{
    let q = swap_spec(reserve_in, reserve_out, fee_bps, amount_in, min_out)->Ok_0;
    let rin = reserve_in as int;
    let rout = reserve_out as int;
    let net = q.amount_in_after_fee as int;
    let out = q.amount_out as int;
    let paid = q.amount_in as int;
    let fee = fee_of(amount_in, fee_bps);
    assert(fee >= 0) by (nonlinear_arith)
        requires
            fee == (amount_in * fee_bps + 9999) / 10000,
            amount_in >= 0,
            fee_bps >= 0,
    ;
    lemma_output_bounds(reserve_in, reserve_out, amount_in - fee);
    vstd::arithmetic::div_mod::lemma_fundamental_div_mod(rout * net, rin + net);
    vstd::arithmetic::div_mod::lemma_mod_bound(rout * net, rin + net);
    assert((rin + paid) * (rout - out) >= rin * rout) by (nonlinear_arith)
        requires
            rin >= 0,
            net > 0,
            paid >= net,
            out >= 0,
            rout * net == (rin + net) * out + (rout * net) % (rin + net),
            (rout * net) % (rin + net) >= 0,
            out <= rout,
    {
        assert((rin + net) * out <= rout * net);
        assert((rin + net) * (rout - out) >= rin * rout);
        assert((rin + paid) * (rout - out) >= (rin + net) * (rout - out));
    }
}

/// What a swap of `amount_in` at `fee_bps` would pay out, before any bound.
pub open spec fn achievable_output(reserve_in: u64, reserve_out: u64, fee_bps: u16, amount_in: u64)
    -> int {
    output_of(reserve_in, reserve_out, amount_in - fee_of(amount_in, fee_bps))
}

/// A swap whose minimum output is above what the curve can pay fails with
/// `SlippageExceeded`, and so resolves no transfer at all, whenever the fee
/// is at most a whole.
pub proof fn lemma_swap_below_minimum_fails(
    reserve_in: u64,
    reserve_out: u64,
    fee_bps: u16,
    amount_in: u64,
    min_out: u64,
)
    requires
        fee_bps <= BPS_DENOMINATOR,
        min_out > achievable_output(reserve_in, reserve_out, fee_bps, amount_in),
    ensures
        swap_spec(reserve_in, reserve_out, fee_bps, amount_in, min_out) == Err::<
            SwapQuote,
            EscrowError,
        >(EscrowError::SlippageExceeded),
{
    let a = amount_in as int;
    let f = fee_bps as int;
    assert((a * f + 9999) / 10000 <= a) by (nonlinear_arith)
        requires
            a >= 0,
            0 <= f <= 10000,
    {
        assert(a * f + 9999 <= a * 10000 + 9999);
        vstd::arithmetic::div_mod::lemma_div_is_ordered(a * f + 9999, a * 10000 + 9999, 10000);
        assert((a * 10000 + 9999) / 10000 == a);
    }
}

} // verus!
