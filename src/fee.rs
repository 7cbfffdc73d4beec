use vstd::prelude::*;
use vstd::arithmetic::div_mod::lemma_div_is_ordered;
use vstd::arithmetic::mul::lemma_mul_inequality;

use crate::error::GatewayError;

verus! {

/// The gateway fee on `amount`: the fraction `charge / converter` of it,
/// rounded down.
pub open spec fn fee_spec(amount: int, charge: int, converter: int) -> int {
    (charge * amount) / converter
}

/// Computes `floor(charge * amount / converter)`.
///
/// The product is formed first: where it does not fit in 128 bits the result
/// is `ArithmeticOverflow`; otherwise a zero `converter` gives `DivisionByZero`.
pub fn compute_fee(amount: u128, charge: u128, converter: u128) -> (r: Result<u128, GatewayError>)
    ensures
        charge * amount > u128::MAX ==> r == Err::<u128, GatewayError>(GatewayError::ArithmeticOverflow),
        charge * amount <= u128::MAX && converter == 0 ==> r == Err::<u128, GatewayError>(GatewayError::DivisionByZero),
        charge * amount <= u128::MAX && converter != 0 ==> r == Ok::<u128, GatewayError>(
            fee_spec(amount as int, charge as int, converter as int) as u128,
        ),
        r matches Ok(f) ==> f <= u128::MAX && f == fee_spec(amount as int, charge as int, converter as int),
{
    match charge.checked_mul(amount) {
        None => Err(GatewayError::ArithmeticOverflow),
        Some(product) => {
            if converter == 0 {
                Err(GatewayError::DivisionByZero)
            } else {
                let f = product / converter;
                proof {
                    assert(f as int == fee_spec(amount as int, charge as int, converter as int));
                }
                Ok(f)
            }
        },
    }
}

/// The fee never decreases when the amount or the charge grows, for a fixed
/// positive converter.
pub proof fn lemma_fee_monotonic(a1: int, a2: int, c1: int, c2: int, converter: int)
    requires
        0 <= a1 <= a2,
        0 <= c1 <= c2,
        converter > 0,
    ensures
        0 <= fee_spec(a1, c1, converter) <= fee_spec(a2, c2, converter),
{
    lemma_mul_inequality(c1, c2, a1);
    lemma_mul_inequality(a1, a2, c2);
    assert(c1 * a1 <= c2 * a2) by (nonlinear_arith)
        requires
            c1 * a1 <= c2 * a1,
            a1 * c2 <= a2 * c2,
    ;
    assert(0 <= c1 * a1) by (nonlinear_arith)
        requires
            0 <= c1,
            0 <= a1,
    ;
    lemma_div_is_ordered(c1 * a1, c2 * a2, converter);
    lemma_div_is_ordered(0, c1 * a1, converter);
}

} // verus!
