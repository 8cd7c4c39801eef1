//! Conversions between underlying units and shares at a round's settlement rate.
//!
//! A round that settles with `supply` shares outstanding and `equity` units of
//! underlying behind them has the price `equity / supply` per share; with no
//! shares outstanding the price is one unit per share. Every conversion
//! truncates toward zero, so rounding never creates value.
use vstd::prelude::*;
use vstd::arithmetic::div_mod::{
    lemma_div_is_ordered, lemma_div_multiples_vanish, lemma_fundamental_div_mod,
};

use crate::error::ErrorCode;

verus! {

/// A price exists: either no shares are outstanding, or capital backs them.
pub open spec fn has_price(supply: nat, equity: nat) -> bool {
    supply == 0 || equity > 0
}

/// The part of `total_out` that corresponds to `part` out of `total_in`,
/// truncated; nothing where nothing went in.
pub open spec fn pro_rata(part: nat, total_out: nat, total_in: nat) -> nat {
    if total_in == 0 {
        0
    } else {
        part * total_out / total_in
    }
}

/// Shares minted for `amount` units at the price `equity / supply`
/// (one unit per share when `supply` is zero).
pub open spec fn shares_for(amount: nat, supply: nat, equity: nat) -> nat {
    if supply == 0 {
        amount
    } else {
        pro_rata(amount, supply, equity)
    }
}

/// Units paid out for `shares` at the price `equity / supply`.
pub open spec fn underlying_for(shares: nat, supply: nat, equity: nat) -> nat {
    if supply == 0 {
        0
    } else {
        pro_rata(shares, equity, supply)
    }
}

/// Shares that a deposit of `amount` converts to.
pub fn shares_for_deposit(amount: u64, supply: u64, equity: u64) -> (r: Result<u64, ErrorCode>)
    ensures
        r == (if !has_price(supply as nat, equity as nat) {
            Err(ErrorCode::VaultMintSupplyMustBeZeroIfEquityIsZero)
        } else if shares_for(amount as nat, supply as nat, equity as nat) > u64::MAX {
            Err(ErrorCode::NumberOverflow)
        } else {
            Ok(shares_for(amount as nat, supply as nat, equity as nat) as u64)
        }),
{
    if supply == 0 {
        return Ok(amount);
    }
    if equity == 0 {
        return Err(ErrorCode::VaultMintSupplyMustBeZeroIfEquityIsZero);
    }
    proof {
        lemma_product_fits(amount, supply);
    }
    let product: u128 = amount as u128 * supply as u128;
    assert(product == amount as nat * supply as nat);
    let q: u128 = product / equity as u128;
    if q > u64::MAX as u128 {
        Err(ErrorCode::NumberOverflow)
    } else {
        Ok(q as u64)
    }
}

/// Units that a withdrawal of `shares` converts to.
pub fn underlying_for_withdrawal(shares: u64, supply: u64, equity: u64) -> (r: Result<u64, ErrorCode>)
    ensures
        r == (if shares > supply {
            Err(ErrorCode::InsufficientShares)
        } else {
            Ok(underlying_for(shares as nat, supply as nat, equity as nat) as u64)
        }),
        shares <= supply ==> underlying_for(shares as nat, supply as nat, equity as nat) <= equity,
{
    proof {
        lemma_withdrawal_bounded(shares as nat, supply as nat, equity as nat);
    }
    if shares > supply {
        return Err(ErrorCode::InsufficientShares);
    }
    if supply == 0 {
        return Ok(0);
    }
    proof {
        lemma_product_fits(shares, equity);
    }
    let product: u128 = shares as u128 * equity as u128;
    assert(product == shares as nat * equity as nat);
    let q: u128 = product / supply as u128;
    Ok(q as u64)
}

/// The product of two `u64` values fits in a `u128`.
proof fn lemma_product_fits(x: u64, y: u64)
    ensures
        (x as nat) * (y as nat) <= u128::MAX,
{
    assert((x as nat) * (y as nat) <= (u64::MAX as nat) * (u64::MAX as nat)) by (nonlinear_arith)
        requires
            x <= u64::MAX,
            y <= u64::MAX,
    ;
}

/// A withdrawal of at most the whole supply is paid at most the whole equity.
pub proof fn lemma_withdrawal_bounded(shares: nat, supply: nat, equity: nat)
    ensures
        shares <= supply ==> underlying_for(shares, supply, equity) <= equity,
{
    if shares <= supply && supply > 0 {
        assert(shares * equity <= supply * equity) by (nonlinear_arith)
            requires
                shares <= supply,
        ;
        lemma_div_is_ordered((shares * equity) as int, (supply * equity) as int, supply as int);
        assert(supply * equity / supply == equity) by (nonlinear_arith)
            requires
                supply > 0,
        ;
    }
}

/// The part of `total_out` owed to `part` out of `total_in`.
pub fn pro_rata_part(part: u64, total_out: u64, total_in: u64) -> (r: u64)
    requires
        total_in > 0,
        part <= total_in,
    ensures
        r == pro_rata(part as nat, total_out as nat, total_in as nat),
        r <= total_out,
{
    proof {
        lemma_product_fits(part, total_out);
        lemma_withdrawal_bounded(part as nat, total_in as nat, total_out as nat);
    }
    let product: u128 = part as u128 * total_out as u128;
    assert(product == part as nat * total_out as nat);
    let q: u128 = product / total_in as u128;
    q as u64
}

/// The whole of what was queued receives the whole of what came of it.
pub proof fn lemma_pro_rata_whole(total_out: nat, total_in: nat)
    requires
        total_in > 0,
    ensures
        pro_rata(total_in, total_out, total_in) == total_out,
{
    lemma_div_multiples_vanish(total_out as int, total_in as int);
}

/// Truncation loses less than one unit: `pro_rata(a) <= a * out / in
/// < pro_rata(a) + 1`, stated without division.
pub proof fn lemma_pro_rata_truncation(a: nat, total_out: nat, total_in: nat)
    requires
        total_in > 0,
    ensures
        pro_rata(a, total_out, total_in) * total_in <= a * total_out,
        a * total_out < (pro_rata(a, total_out, total_in) + 1) * total_in,
{
    let s = pro_rata(a, total_out, total_in);
    let p: int = (a * total_out) as int;
    let e: int = total_in as int;
    lemma_fundamental_div_mod(p, e);
    assert(s == p / e);
    assert(s * e + p % e == p) by (nonlinear_arith)
        requires
            p == e * (p / e) + p % e,
            s == p / e,
    ;
    assert(0 <= p % e < e);
    assert((s + 1) * e == s * e + e) by (nonlinear_arith);
}

/// Settlement is fair between the requests of one round. Where `total_in`
/// units were queued and `total_out` came of them, requests of `a` and `b`
/// receive amounts in the ratio `a : b` up to one unit of truncation, a
/// larger request never receives less, and two requests together never
/// receive more than one request of their sum.
pub proof fn lemma_settlement_fairness(a: nat, b: nat, total_out: nat, total_in: nat)
    requires
        total_in > 0,
    ensures
        pro_rata(a, total_out, total_in) * b <= (pro_rata(b, total_out, total_in) + 1) * a,
        a <= b ==> pro_rata(a, total_out, total_in) <= pro_rata(b, total_out, total_in),
        pro_rata(a, total_out, total_in) + pro_rata(b, total_out, total_in) <= pro_rata(
            a + b,
            total_out,
            total_in,
        ),
{
    let sa = pro_rata(a, total_out, total_in);
    let sb = pro_rata(b, total_out, total_in);
    let sab = pro_rata(a + b, total_out, total_in);
    lemma_pro_rata_truncation(a, total_out, total_in);
    lemma_pro_rata_truncation(b, total_out, total_in);
    lemma_pro_rata_truncation(a + b, total_out, total_in);
    assert(sa * b <= (sb + 1) * a) by (nonlinear_arith)
        requires
            sa * total_in <= a * total_out,
            b * total_out < (sb + 1) * total_in,
            total_in > 0,
    ;
    if a <= b {
        assert(sa <= sb) by (nonlinear_arith)
            requires
                sa * total_in <= a * total_out,
                b * total_out < (sb + 1) * total_in,
                a <= b,
                total_in > 0,
        ;
    }
    assert(sa + sb <= sab) by (nonlinear_arith)
        requires
            sa * total_in <= a * total_out,
            sb * total_in <= b * total_out,
            (a + b) * total_out < (sab + 1) * total_in,
            total_in > 0,
    ;
}

} // verus!
