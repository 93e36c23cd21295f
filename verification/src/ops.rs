//! Binary and unary operations over runtime values, following the coercion
//! table documented in the value model.

use vstd::prelude::*;
use vstd::string::StringExecFns;
use crate::errors::Error;
use crate::values::PPL_TRUE;
use crate::values::ScalarView;
use crate::values::VariableValue;
use crate::values::get_int;
use crate::values::get_string;
use crate::values::int_of;
use crate::values::render_of;
use crate::values::scalar_view;
use crate::values::truthy_of;
use crate::values::wrap_i32;
use crate::values::wrap32_exec;

verus! {

/// What addition yields: a string operand concatenates the rendered
/// operands, two integer-coercible operands add with 32-bit wrap-around,
/// anything else is a type error.
pub open spec fn add_view(a: ScalarView, b: ScalarView) -> Option<ScalarView> {
    if a is StrV || b is StrV {
        Some(ScalarView::StrV(render_of(a) + render_of(b)))
    } else {
        match (int_of(a), int_of(b)) {
            (Some(x), Some(y)) => Some(ScalarView::Int(wrap_i32(x + y))),
            _ => None,
        }
    }
}

/// Adds two values; see [`add_view`].
pub fn value_add(a: &VariableValue, b: &VariableValue) -> (r: Result<VariableValue, Error>)
    ensures
        match add_view(scalar_view(*a), scalar_view(*b)) {
            Some(sv) => r matches Ok(v) && scalar_view(v) == sv,
            None => r matches Err(Error::TypeMismatch),
        },
{
    let a_is_str = match a {
        VariableValue::Str(_) => true,
        _ => false,
    };
    let b_is_str = match b {
        VariableValue::Str(_) => true,
        _ => false,
    };
    if a_is_str || b_is_str {
        let sa = get_string(a);
        let sb = get_string(b);
        Ok(VariableValue::Str(sa.concat(sb.as_str())))
    } else {
        let x = match get_int(a) {
            Ok(x) => x,
            Err(_) => {
                return Err(Error::TypeMismatch);
            },
        };
        let y = match get_int(b) {
            Ok(y) => y,
            Err(_) => {
                return Err(Error::TypeMismatch);
            },
        };
        Ok(VariableValue::Integer(wrap32_exec((x as i64) + (y as i64))))
    }
}

/// Subtracts two integer-coercible values with 32-bit wrap-around.
pub fn value_sub(a: &VariableValue, b: &VariableValue) -> (r: Result<VariableValue, Error>)
    ensures
        match (int_of(scalar_view(*a)), int_of(scalar_view(*b))) {
            (Some(x), Some(y)) => r matches Ok(v) && scalar_view(v) == ScalarView::Int(
                wrap_i32(x - y),
            ),
            _ => r matches Err(Error::TypeMismatch),
        },
{
    let x = match get_int(a) {
        Ok(x) => x,
        Err(_) => {
            return Err(Error::TypeMismatch);
        },
    };
    let y = match get_int(b) {
        Ok(y) => y,
        Err(_) => {
            return Err(Error::TypeMismatch);
        },
    };
    Ok(VariableValue::Integer(wrap32_exec((x as i64) - (y as i64))))
}

/// Multiplies two integer-coercible values with 32-bit wrap-around.
pub fn value_mul(a: &VariableValue, b: &VariableValue) -> (r: Result<VariableValue, Error>)
    ensures
        match (int_of(scalar_view(*a)), int_of(scalar_view(*b))) {
            (Some(x), Some(y)) => r matches Ok(v) && scalar_view(v) == ScalarView::Int(
                wrap_i32(x * y),
            ),
            _ => r matches Err(Error::TypeMismatch),
        },
{
    let x = match get_int(a) {
        Ok(x) => x,
        Err(_) => {
            return Err(Error::TypeMismatch);
        },
    };
    let y = match get_int(b) {
        Ok(y) => y,
        Err(_) => {
            return Err(Error::TypeMismatch);
        },
    };
    let xi: i64 = x as i64;
    let yi: i64 = y as i64;
    proof {
        assert(-0x4000_0000_0000_0000 <= xi as int * yi as int <= 0x4000_0000_0000_0000)
            by (nonlinear_arith)
            requires
                -0x8000_0000 <= xi as int <= 0x7FFF_FFFF,
                -0x8000_0000 <= yi as int <= 0x7FFF_FFFF,
        ;
    }
    Ok(VariableValue::Integer(wrap32_exec(xi * yi)))
}

/// Truncated division, as the legacy arithmetic rounds toward zero.
pub open spec fn div_trunc(x: int, y: int) -> int {
    let q = abs_of(x) / abs_of(y);
    if (x < 0) == (y < 0) {
        q
    } else {
        -q
    }
}

/// Truncated remainder: what division toward zero leaves.
pub open spec fn rem_trunc(x: int, y: int) -> int {
    x - div_trunc(x, y) * y
}

/// The absolute value.
pub open spec fn abs_of(x: int) -> int {
    if x < 0 {
        -x
    } else {
        x
    }
}

/// The unsigned magnitude of a 32-bit value.
fn abs_u64(x: i32) -> (r: u64)
    ensures
        r as int == abs_of(x as int),
{
    if x < 0 {
        (-(x as i64)) as u64
    } else {
        x as u64
    }
}

/// Divides two integer-coercible values, truncating toward zero, with
/// 32-bit wrap-around of the quotient; division by zero is a fatal error.
pub fn value_div(a: &VariableValue, b: &VariableValue) -> (r: Result<VariableValue, Error>)
    ensures
        match (int_of(scalar_view(*a)), int_of(scalar_view(*b))) {
            (Some(x), Some(y)) => if y == 0 {
                r matches Err(Error::DivisionByZero)
            } else {
                r matches Ok(v) && scalar_view(v) == ScalarView::Int(wrap_i32(div_trunc(x, y)))
            },
            _ => r matches Err(Error::TypeMismatch),
        },
{
    let x = match get_int(a) {
        Ok(x) => x,
        Err(_) => {
            return Err(Error::TypeMismatch);
        },
    };
    let y = match get_int(b) {
        Ok(y) => y,
        Err(_) => {
            return Err(Error::TypeMismatch);
        },
    };
    if y == 0 {
        return Err(Error::DivisionByZero);
    }
    let q: u64 = abs_u64(x) / abs_u64(y);
    let signed_q: i64 = if (x < 0) == (y < 0) {
        q as i64
    } else {
        -(q as i64)
    };
    Ok(VariableValue::Integer(wrap32_exec(signed_q)))
}

/// The remainder of truncated division; a remainder by zero is a fatal
/// error.
pub fn value_mod(a: &VariableValue, b: &VariableValue) -> (r: Result<VariableValue, Error>)
    ensures
        match (int_of(scalar_view(*a)), int_of(scalar_view(*b))) {
            (Some(x), Some(y)) => if y == 0 {
                r matches Err(Error::DivisionByZero)
            } else {
                r matches Ok(v) && scalar_view(v) == ScalarView::Int(wrap_i32(rem_trunc(x, y)))
            },
            _ => r matches Err(Error::TypeMismatch),
        },
{
    let x = match get_int(a) {
        Ok(x) => x,
        Err(_) => {
            return Err(Error::TypeMismatch);
        },
    };
    let y = match get_int(b) {
        Ok(y) => y,
        Err(_) => {
            return Err(Error::TypeMismatch);
        },
    };
    if y == 0 {
        return Err(Error::DivisionByZero);
    }
    let ax = abs_u64(x);
    let ay = abs_u64(y);
    let q: u64 = ax / ay;
    let rem: u64 = ax % ay;
    proof {
        let xi = x as int;
        let yi = y as int;
        vstd::arithmetic::div_mod::lemma_fundamental_div_mod(abs_of(xi), abs_of(yi));
        assert(rem as int == abs_of(xi) - (abs_of(xi) / abs_of(yi)) * abs_of(yi));
        assert(rem_trunc(xi, yi) == xi - div_trunc(xi, yi) * yi);
        assert(rem_trunc(xi, yi) == if xi < 0 {
            -(rem as int)
        } else {
            rem as int
        }) by (nonlinear_arith)
            requires
                rem as int == abs_of(xi) - (abs_of(xi) / abs_of(yi)) * abs_of(yi),
                rem_trunc(xi, yi) == xi - div_trunc(xi, yi) * yi,
                div_trunc(xi, yi) == if (xi < 0) == (yi < 0) {
                    abs_of(xi) / abs_of(yi)
                } else {
                    -(abs_of(xi) / abs_of(yi))
                },
                abs_of(xi) == if xi < 0 {
                    -xi
                } else {
                    xi
                },
                abs_of(yi) == if yi < 0 {
                    -yi
                } else {
                    yi
                },
                yi != 0,
        ;
        vstd::arithmetic::div_mod::lemma_div_pos_is_pos(abs_of(xi), abs_of(yi));
        vstd::arithmetic::div_mod::lemma_remainder_lower(abs_of(xi), abs_of(yi));
        vstd::arithmetic::div_mod::lemma_remainder_upper(abs_of(xi), abs_of(yi));
    }
    let signed_rem: i64 = if x < 0 {
        -(rem as i64)
    } else {
        rem as i64
    };
    Ok(VariableValue::Integer(wrap32_exec(signed_rem)))
}

/// What equality yields: two strings compare by characters, two
/// integer-coercible values by their integers; anything else is a type
/// error.
pub open spec fn eq_view(a: ScalarView, b: ScalarView) -> Option<bool> {
    match (a, b) {
        (ScalarView::StrV(x), ScalarView::StrV(y)) => Some(x == y),
        _ => match (int_of(a), int_of(b)) {
            (Some(x), Some(y)) => Some(x == y),
            _ => None,
        },
    }
}

/// Compares two values for equality; see [`eq_view`].
pub fn value_eq(a: &VariableValue, b: &VariableValue) -> (r: Result<bool, Error>)
    ensures
        match eq_view(scalar_view(*a), scalar_view(*b)) {
            Some(e) => r matches Ok(x) && x == e,
            None => r matches Err(Error::TypeMismatch),
        },
{
    match (a, b) {
        (VariableValue::Str(x), VariableValue::Str(y)) => Ok(x.eq(y)),
        _ => {
            let x = match get_int(a) {
                Ok(x) => x,
                Err(_) => {
                    return Err(Error::TypeMismatch);
                },
            };
            let y = match get_int(b) {
                Ok(y) => y,
                Err(_) => {
                    return Err(Error::TypeMismatch);
                },
            };
            Ok(x == y)
        },
    }
}

/// Compares two integer-coercible values; `r == Ok(true)` exactly when the
/// first is strictly below the second.
pub fn value_lt(a: &VariableValue, b: &VariableValue) -> (r: Result<bool, Error>)
    ensures
        match (int_of(scalar_view(*a)), int_of(scalar_view(*b))) {
            (Some(x), Some(y)) => r matches Ok(c) && c == (x < y),
            _ => r matches Err(Error::TypeMismatch),
        },
{
    let x = match get_int(a) {
        Ok(x) => x,
        Err(_) => {
            return Err(Error::TypeMismatch);
        },
    };
    let y = match get_int(b) {
        Ok(y) => y,
        Err(_) => {
            return Err(Error::TypeMismatch);
        },
    };
    Ok(x < y)
}

/// The truth of a value in a logical position; a value that carries no
/// truth is a fatal type error.
pub fn value_truthy(v: &VariableValue) -> (r: Result<bool, Error>)
    ensures
        match truthy_of(scalar_view(*v)) {
            Some(t) => r matches Ok(x) && x == t,
            None => r matches Err(Error::TypeMismatch),
        },
{
    match v {
        VariableValue::Boolean(b) => Ok(*b),
        _ => match get_int(v) {
            Ok(i) => Ok(i == PPL_TRUE),
            Err(_) => Err(Error::TypeMismatch),
        },
    }
}

/// Logical negation through the truth rule; the result is a Boolean.
pub fn value_not(v: &VariableValue) -> (r: Result<VariableValue, Error>)
    ensures
        match truthy_of(scalar_view(*v)) {
            Some(t) => r matches Ok(x) && scalar_view(x) == ScalarView::Bool(!t),
            None => r matches Err(Error::TypeMismatch),
        },
{
    match value_truthy(v) {
        Ok(t) => Ok(VariableValue::Boolean(!t)),
        Err(e) => Err(e),
    }
}

/// Arithmetic negation of an integer-coercible value, with wrap-around.
pub fn value_neg(v: &VariableValue) -> (r: Result<VariableValue, Error>)
    ensures
        match int_of(scalar_view(*v)) {
            Some(x) => r matches Ok(w) && scalar_view(w) == ScalarView::Int(wrap_i32(-x)),
            None => r matches Err(Error::TypeMismatch),
        },
{
    let x = match get_int(v) {
        Ok(x) => x,
        Err(_) => {
            return Err(Error::TypeMismatch);
        },
    };
    Ok(VariableValue::Integer(wrap32_exec(-(x as i64))))
}

} // verus!
