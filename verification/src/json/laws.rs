//! What holds of JSON values as a whole.
use vstd::prelude::*;

use crate::json::model::{Json, Number};
use crate::json::value::JsonValue;

verus! {

/// A value says what it holds: its scalar, its items in their order, or its members.
pub proof fn law_what_a_value_says(value: JsonValue)
    ensures
        match value {
            JsonValue::Null => value@ == Json::Null,
            JsonValue::Bool(b) => value@ == Json::Bool(b),
            JsonValue::Number(number) => value@ == Json::Number(number@),
            JsonValue::String(text) => value@ == Json::String(text@),
            JsonValue::Array(items) => {
                &&& value@ is Array
                &&& value@->Array_0.len() == items@.len()
                &&& forall|i: int|
                    0 <= i < items@.len() ==> #[trigger] value@->Array_0[i] == items@[i]@
            },
            JsonValue::Object(object) => value@ == Json::Object(object@),
        },
{
    if let JsonValue::Array(items) = value {
        assert(value@ == Json::Array(crate::json::value::shown(items@)));
    }
}

/// One text comes before another where it is a proper prefix of it, or has the lesser character
/// where the two first differ.
pub proof fn law_order_of_texts(a: Seq<char>, b: Seq<char>)
    ensures
        crate::text::precedes(a, b) <==> exists|k: int|
            0 <= k <= a.len() && k < b.len() && #[trigger] a.take(k) == b.take(k) && (k == a.len()
                || a[k] < b[k]),
    decreases a.len(),
{
    if b.len() == 0 {
    } else if a.len() == 0 {
        assert(a.take(0) =~= b.take(0));
    } else if a[0] != b[0] {
        if a[0] < b[0] {
            assert(a.take(0) =~= b.take(0));
        }
        assert forall|k: int|
            0 <= k <= a.len() && k < b.len() && #[trigger] a.take(k) == b.take(k) && (k == a.len()
                || a[k] < b[k]) implies a[0] < b[0] by {
            if k > 0 {
                assert(a.take(k)[0] == b.take(k)[0]);
            }
        }
    } else {
        let (s, t) = (a.drop_first(), b.drop_first());
        law_order_of_texts(s, t);
        if crate::text::precedes(a, b) {
            let k = choose|k: int|
                0 <= k <= s.len() && k < t.len() && #[trigger] s.take(k) == t.take(k) && (k
                    == s.len() || s[k] < t[k]);
            assert(a.take(k + 1) =~= seq![a[0]] + s.take(k));
            assert(b.take(k + 1) =~= seq![b[0]] + t.take(k));
        }
        assert forall|k: int|
            0 <= k <= a.len() && k < b.len() && #[trigger] a.take(k) == b.take(k) && (k == a.len()
                || a[k] < b[k]) implies crate::text::precedes(a, b) by {
            assert(k > 0);
            assert(s.take(k - 1) =~= a.take(k).drop_first());
            assert(t.take(k - 1) =~= b.take(k).drop_first());
            assert(s.take(k - 1) == t.take(k - 1));
        }
    }
}

/// Members are in order where each key comes before every later one.
pub proof fn law_order_of_members(members: Seq<(Seq<char>, Json)>)
    ensures
        crate::json::model::sorted(members) <==> forall|i: int, j: int|
            0 <= i < j < members.len() ==> crate::text::precedes(
                (#[trigger] members[i]).0,
                (#[trigger] members[j]).0,
            ),
{
    if crate::json::model::sorted(members) {
        assert forall|i: int, j: int| 0 <= i < j < members.len() implies crate::text::precedes(
            (#[trigger] members[i]).0,
            (#[trigger] members[j]).0,
        ) by {
            let _ = (members[i].0, members[j].0);
        }
    }
}

/// A member is found under its key, the first where several had one, and a key that no member has
/// is not found.
pub proof fn law_members_are_found_by_key(members: Seq<(Seq<char>, Json)>, key: Seq<char>)
    ensures
        crate::json::model::member(members, key) is None <==> forall|i: int|
            0 <= i < members.len() ==> (#[trigger] members[i]).0 != key,
        forall|i: int|
            0 <= i < members.len() && (#[trigger] members[i]).0 == key && (forall|j: int|
                0 <= j < i ==> (#[trigger] members[j]).0 != key) ==> crate::json::model::member(
                members,
                key,
            ) == Some(members[i].1),
        Json::Object(members).get(key) == crate::json::model::member(members, key),
    decreases members.len(),
{
    if members.len() > 0 && members[0].0 != key {
        let rest = members.drop_first();
        law_members_are_found_by_key(rest, key);
        assert(forall|i: int| 0 <= i < rest.len() ==> #[trigger] rest[i] == members[i + 1]);
        assert forall|i: int|
            0 <= i < members.len() && (#[trigger] members[i]).0 == key && (forall|j: int|
                0 <= j < i ==> (#[trigger] members[j]).0 != key) implies crate::json::model::member(
            members,
            key,
        ) == Some(members[i].1) by {
            assert(rest[i - 1].0 == key);
            assert forall|j: int| 0 <= j < i - 1 implies (#[trigger] rest[j]).0 != key by {
                assert(members[j + 1].0 != key);
            }
        }
        if crate::json::model::member(members, key) is None {
            assert forall|i: int| 0 <= i < members.len() implies (#[trigger] members[i]).0
                != key by {
                if i > 0 {
                    assert(rest[i - 1].0 != key);
                }
            }
        } else {
            let i = choose|i: int| 0 <= i < rest.len() && (#[trigger] rest[i]).0 == key;
            assert(members[i + 1].0 == key);
        }
    }
}

/// Nothing but an object has members.
pub proof fn law_only_objects_have_members(value: Json, key: Seq<char>)
    ensures
        !(value is Object) ==> value.get(key) is None,
{
}

/// Setting a member keeps the members in order; read back, the member has its new value and every
/// other member the value that it had; and there is one member more exactly where the key is new.
pub proof fn law_a_member_is_read_as_written(
    members: Seq<(Seq<char>, Json)>,
    key: Seq<char>,
    value: Json,
    asked: Seq<char>,
)
    requires
        crate::json::model::sorted(members),
    ensures
        ({
            let written = crate::json::model::with_member(members, key, value);
            &&& crate::json::model::sorted(written)
            &&& crate::json::model::member(written, key) == Some(value)
            &&& asked != key ==> crate::json::model::member(written, asked)
                == crate::json::model::member(members, asked)
            &&& written.len() == members.len() + if crate::json::model::member(members, key)
                is None {
                1int
            } else {
                0
            }
        }),
{
    crate::json::model::lemma_member_of_with_member(members, key, value, key);
    crate::json::model::lemma_member_of_with_member(members, key, value, asked);
    let at = lemma_place_of_key(members, key);
    crate::json::model::lemma_with_member_at(members, at, key, value);
    if at < members.len() && members[at].0 == key {
        crate::json::model::lemma_member_at(members, at);
    } else {
        assert forall|i: int| 0 <= i < members.len() implies (#[trigger] members[i]).0 != key by {
            crate::text::lemma_precedes_irreflexive(key);
            if at < i {
                assert(crate::text::precedes(members[at].0, members[i].0));
                crate::text::lemma_precedes_transitive(key, members[at].0, members[i].0);
            }
        }
        crate::json::model::lemma_member_absent(members, key);
    }
}

/// Where a key stands among members in order, or would stand.
proof fn lemma_place_of_key(members: Seq<(Seq<char>, Json)>, key: Seq<char>) -> (at: int)
    ensures
        0 <= at <= members.len(),
        forall|j: int| 0 <= j < at ==> crate::text::precedes((#[trigger] members[j]).0, key),
        at < members.len() ==> members[at].0 == key || crate::text::precedes(key, members[at].0),
    decreases members.len(),
{
    if members.len() == 0 {
        0
    } else if members[0].0 == key || crate::text::precedes(key, members[0].0) {
        0
    } else {
        crate::text::lemma_precedes_total(members[0].0, key);
        let rest = members.drop_first();
        let at = lemma_place_of_key(rest, key) + 1;
        assert forall|j: int| 0 <= j < at implies crate::text::precedes(
            (#[trigger] members[j]).0,
            key,
        ) by {
            if j > 0 {
                assert(rest[j - 1] == members[j]);
            }
        }
        at
    }
}

/// Equal values are of one kind, with equal scalars, with pairwise equal items in the same order,
/// or with the same keys and equal values under them. Integers and floating-point numbers are
/// never equal, and of floating-point numbers only the two zeros are equal without being the same.
pub proof fn law_equal_values(a: Json, b: Json)
    ensures
        a.same(b) <==> match (a, b) {
            (Json::Null, Json::Null) => true,
            (Json::Bool(x), Json::Bool(y)) => x == y,
            (Json::Number(Number::PosInt(x)), Json::Number(Number::PosInt(y))) => x == y,
            (Json::Number(Number::NegInt(x)), Json::Number(Number::NegInt(y))) => x == y,
            (Json::Number(Number::Float(x)), Json::Number(Number::Float(y))) => x == y || (x
                % 0x8000_0000_0000_0000 == 0 && y % 0x8000_0000_0000_0000 == 0),
            (Json::String(x), Json::String(y)) => x == y,
            (Json::Array(x), Json::Array(y)) => {
                &&& x.len() == y.len()
                &&& forall|i: int| 0 <= i < x.len() ==> (#[trigger] x[i]).same(y[i])
            },
            (Json::Object(x), Json::Object(y)) => {
                &&& x.len() == y.len()
                &&& forall|i: int|
                    0 <= i < x.len() ==> (#[trigger] x[i]).0 == y[i].0 && x[i].1.same(y[i].1)
            },
            _ => false,
        },
{
    match (a, b) {
        (Json::Array(x), Json::Array(y)) => {
            if a.same(b) {
                assert forall|i: int| 0 <= i < x.len() implies (#[trigger] x[i]).same(y[i]) by {}
            }
        },
        (Json::Object(x), Json::Object(y)) => {
            if a.same(b) {
                assert forall|i: int| 0 <= i < x.len() implies (#[trigger] x[i]).0 == y[i].0
                    && x[i].1.same(y[i].1) by {}
            }
        },
        _ => {},
    }
}

/// Numbers are equal as the values that they are.
pub proof fn law_equal_numbers(a: Number, b: Number)
    ensures
        a.same(b) <==> Json::Number(a).same(Json::Number(b)),
{
}

/// Every integer is integral. A floating-point number is `m * 2^e / 2^1075`, where `e` is its
/// exponent field and `m` its fraction field with the leading bit (for the least exponent field,
/// `e` is one and the leading bit is missing), and is integral where `2^1075` divides `m * 2^e`.
pub proof fn law_integral_numbers(number: Number)
    ensures
        match number {
            Number::Float(bits) => {
                let field = (bits as int / 0x10_0000_0000_0000) % 0x800;
                let fraction = bits as int % 0x10_0000_0000_0000;
                let (m, e) = if field == 0 {
                    (fraction, 1)
                } else {
                    (fraction + 0x10_0000_0000_0000, field)
                };
                number.is_integral() <==> (m * vstd::arithmetic::power2::pow2(e as nat)) % (
                vstd::arithmetic::power2::pow2(1075) as int) == 0
            },
            _ => number.is_integral(),
        },
{
    if let Number::Float(bits) = number {
        let m = crate::json::model::significand(bits);
        let e = crate::json::model::scale(bits);
        let whole = vstd::arithmetic::power2::pow2(1075) as int;
        let power = vstd::arithmetic::power2::pow2(e as nat) as int;
        vstd::arithmetic::power2::lemma_pow2_pos(1075);
        vstd::arithmetic::power2::lemma_pow2_pos(e as nat);
        if e >= 1075 {
            let rest = vstd::arithmetic::power2::pow2((e - 1075) as nat) as int;
            vstd::arithmetic::power2::lemma_pow2_adds((e - 1075) as nat, 1075);
            assert(m * power == (m * rest) * whole) by (nonlinear_arith)
                requires
                    power == rest * whole,
            ;
            vstd::arithmetic::div_mod::lemma_mod_multiples_basic(m * rest, whole);
        } else {
            let rest = vstd::arithmetic::power2::pow2((1075 - e) as nat) as int;
            vstd::arithmetic::power2::lemma_pow2_pos((1075 - e) as nat);
            vstd::arithmetic::power2::lemma_pow2_adds(e as nat, (1075 - e) as nat);
            vstd::arithmetic::div_mod::lemma_truncate_middle(m, power, rest);
            assert(m * power == power * m) by (nonlinear_arith);
            assert(power * (m % rest) == 0 <==> m % rest == 0) by (nonlinear_arith)
                requires
                    power > 0,
            ;
        }
    }
}

/// The bits of a number are those whose exponent field is not the greatest.
pub proof fn law_finite_bits(bits: u64)
    ensures
        crate::json::model::is_finite(bits) <==> (bits as int / 0x10_0000_0000_0000) % 0x800
            != 0x7ff,
{
}

} // verus!
