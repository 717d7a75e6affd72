//! JSON numbers.
use vstd::prelude::*;

use crate::json::model::{Json, Number};
use crate::json::outside;

verus! {

#[derive(Debug)]
enum Repr {
    PosInt(u64),
    NegInt(i64),
    /// A floating-point number: a value that holds it, and its bits.
    Float(serde_json::Value, u64),
}

/// A JSON number: an integer, or a finite floating-point number.
#[derive(Debug)]
pub struct JsonNumber {
    repr: Repr,
}

impl View for JsonNumber {
    type V = Number;

    closed spec fn view(&self) -> Number {
        match self.repr {
            Repr::PosInt(n) => Number::PosInt(n),
            Repr::NegInt(n) => Number::NegInt(n),
            Repr::Float(_, bits) => Number::Float(bits),
        }
    }
}

impl JsonNumber {
    #[verifier::type_invariant]
    spec fn valid(self) -> bool {
        match self.repr {
            Repr::PosInt(_) => true,
            Repr::NegInt(n) => n < 0,
            Repr::Float(value, bits) => {
                &&& outside::contents(value) == Json::Number(Number::Float(bits))
                &&& crate::json::model::is_finite(bits)
            },
        }
    }

    /// An integer that is zero or more.
    pub fn from_u64(n: u64) -> (r: JsonNumber)
        ensures
            r@ == Number::PosInt(n),
    {
        JsonNumber { repr: Repr::PosInt(n) }
    }

    /// An integer.
    pub fn from_i64(n: i64) -> (r: JsonNumber)
        ensures
            r@ == if n < 0 {
                Number::NegInt(n)
            } else {
                Number::PosInt(n as u64)
            },
    {
        if n < 0 {
            JsonNumber { repr: Repr::NegInt(n) }
        } else {
            JsonNumber { repr: Repr::PosInt(n as u64) }
        }
    }

    /// The number that a `serde_json` value holds.
    pub(crate) fn from_serde_json(value: serde_json::Value) -> (r: JsonNumber)
        requires
            outside::contents(value) is Number,
        ensures
            outside::contents(value) == Json::Number(r@),
    {
        if let Some(n) = outside::as_u64(&value) {
            return JsonNumber { repr: Repr::PosInt(n) };
        }
        if let Some(n) = outside::as_i64(&value) {
            return JsonNumber { repr: Repr::NegInt(n) };
        }
        match outside::float_bits(&value) {
            Some(bits) => JsonNumber { repr: Repr::Float(value, bits) },
            None => vstd::pervasive::unreached(),
        }
    }

    /// Whether the number has no fractional part.
    pub fn is_integral(&self) -> (r: bool)
        ensures
            r == self@.is_integral(),
    {
        proof {
            use_type_invariant(self);
        }
        match &self.repr {
            Repr::Float(_, bits) => is_integral_float(*bits),
            _ => true,
        }
    }

    /// Whether two numbers are equal.
    pub fn same(&self, other: &JsonNumber) -> (r: bool)
        ensures
            r == self@.same(other@),
    {
        match (&self.repr, &other.repr) {
            (Repr::PosInt(a), Repr::PosInt(b)) => *a == *b,
            (Repr::NegInt(a), Repr::NegInt(b)) => *a == *b,
            (Repr::Float(_, a), Repr::Float(_, b)) => {
                *a == *b || ((*a == 0 || *a == 0x8000_0000_0000_0000) && (*b == 0 || *b
                    == 0x8000_0000_0000_0000))
            },
            _ => false,
        }
    }

    /// The number as `serde_json` holds it.
    pub(crate) fn to_serde_json(&self) -> (r: serde_json::Value)
        ensures
            outside::contents(r) == Json::Number(self@),
    {
        proof {
            use_type_invariant(self);
        }
        match &self.repr {
            Repr::PosInt(n) => outside::unsigned_value(*n),
            Repr::NegInt(n) => outside::negative_value(*n),
            Repr::Float(value, _) => outside::copy(value),
        }
    }
}

impl Clone for JsonNumber {
    fn clone(&self) -> (r: JsonNumber)
        ensures
            r@ == self@,
    {
        proof {
            use_type_invariant(self);
        }
        match &self.repr {
            Repr::PosInt(n) => JsonNumber { repr: Repr::PosInt(*n) },
            Repr::NegInt(n) => JsonNumber { repr: Repr::NegInt(*n) },
            Repr::Float(value, bits) => JsonNumber {
                repr: Repr::Float(outside::copy(value), *bits),
            },
        }
    }
}

/// Whether a finite binary64 number has no fractional part.
fn is_integral_float(bits: u64) -> (r: bool)
    requires
        crate::json::model::is_finite(bits),
    ensures
        r == crate::json::model::float_is_integral(bits),
{
    let exponent: u64 = (bits / 0x10_0000_0000_0000) % 0x800;
    let fraction: u64 = bits % 0x10_0000_0000_0000;
    let significand: u64 = if exponent == 0 {
        fraction
    } else {
        fraction + 0x10_0000_0000_0000
    };
    let scale: u64 = if exponent == 0 {
        1
    } else {
        exponent
    };
    if scale >= 1075 {
        return true;
    }
    let fractional_bits: u64 = 1075 - scale;
    proof {
        vstd::arithmetic::power2::lemma2_to64();
        vstd::arithmetic::power2::lemma2_to64_rest();
    }
    if fractional_bits >= 53 {
        proof {
            if fractional_bits > 53 {
                vstd::arithmetic::power2::lemma_pow2_strictly_increases(53, fractional_bits as nat);
            }
            vstd::arithmetic::div_mod::lemma_small_mod(
                significand as nat,
                vstd::arithmetic::power2::pow2(fractional_bits as nat),
            );
        }
        significand == 0
    } else {
        proof {
            vstd::arithmetic::power2::lemma_pow2_strictly_increases(fractional_bits as nat, 53);
            vstd::bits::lemma_u64_shl_is_mul(1, fractional_bits);
            vstd::arithmetic::power2::lemma_pow2_pos(fractional_bits as nat);
        }
        significand % (1u64 << fractional_bits) == 0
    }
}

} // verus!
