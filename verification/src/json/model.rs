//! What JSON values mean.
use vstd::prelude::*;

verus! {

/// A JSON number. Integers that are zero or more, negative integers and floating-point numbers are
/// kept apart: `1` and `1.0` are different numbers.
pub enum Number {
    PosInt(u64),
    NegInt(i64),
    /// A floating-point number, by its binary64 bits.
    Float(u64),
}

/// A JSON value. The members of an object stand in the order of their keys, each key once.
pub enum Json {
    Null,
    Bool(bool),
    Number(Number),
    String(Seq<char>),
    Array(Seq<Json>),
    Object(Seq<(Seq<char>, Json)>),
}

/// The exponent field of a binary64 number.
pub open spec fn exponent_field(bits: u64) -> int {
    (bits as int / 0x10_0000_0000_0000) % 0x800
}

/// The fraction field of a binary64 number.
pub open spec fn fraction_field(bits: u64) -> int {
    bits as int % 0x10_0000_0000_0000
}

/// Whether the bits are those of a number: neither an infinity nor a NaN.
pub open spec fn is_finite(bits: u64) -> bool {
    exponent_field(bits) < 0x7ff
}

/// The integer which, times `2` to the power [`scale`]` - 1075`, is the number's magnitude.
pub open spec fn significand(bits: u64) -> int {
    if exponent_field(bits) == 0 {
        fraction_field(bits)
    } else {
        fraction_field(bits) + 0x10_0000_0000_0000
    }
}

/// The exponent field, where that of a subnormal number counts as one.
pub open spec fn scale(bits: u64) -> int {
    if exponent_field(bits) == 0 {
        1
    } else {
        exponent_field(bits)
    }
}

/// Whether a finite binary64 number has no fractional part.
pub open spec fn float_is_integral(bits: u64) -> bool {
    scale(bits) >= 1075 || significand(bits) % (vstd::arithmetic::power2::pow2(
        (1075 - scale(bits)) as nat,
    ) as int) == 0
}

/// Whether the bits are those of zero, of either sign.
pub open spec fn is_zero(bits: u64) -> bool {
    bits == 0 || bits == 0x8000_0000_0000_0000
}

/// Whether two finite binary64 numbers are equal: they have the same bits, or both are zero.
pub open spec fn same_float(a: u64, b: u64) -> bool {
    a == b || (is_zero(a) && is_zero(b))
}

impl Number {
    /// Whether the number has no fractional part.
    pub open spec fn is_integral(self) -> bool {
        match self {
            Number::Float(bits) => float_is_integral(bits),
            _ => true,
        }
    }

    /// Whether two numbers are equal.
    pub open spec fn same(self, other: Number) -> bool {
        match (self, other) {
            (Number::Float(a), Number::Float(b)) => same_float(a, b),
            _ => self == other,
        }
    }
}

impl Json {
    /// The value of the member `key` of an object; nothing of any other value.
    pub open spec fn get(self, key: Seq<char>) -> Option<Json> {
        match self {
            Json::Object(members) => member(members, key),
            _ => None,
        }
    }

    /// Whether two values are equal: alike in shape, with equal scalars.
    pub open spec fn same(self, other: Json) -> bool
        decreases self,
    {
        match (self, other) {
            (Json::Number(a), Json::Number(b)) => a.same(b),
            (Json::Array(a), Json::Array(b)) => {
                &&& a.len() == b.len()
                &&& forall|i: int|
                    #![trigger a[i]]
                    #![trigger b[i]]
                    0 <= i < a.len() ==> a[i].same(b[i])
            },
            (Json::Object(a), Json::Object(b)) => {
                &&& a.len() == b.len()
                &&& forall|i: int|
                    #![trigger a[i]]
                    #![trigger b[i]]
                    0 <= i < a.len() ==> a[i].0 == b[i].0 && a[i].1.same(b[i].1)
            },
            _ => self == other,
        }
    }
}

/// Whether the members stand in the order of their keys, each key once.
pub open spec fn sorted(members: Seq<(Seq<char>, Json)>) -> bool {
    forall|i: int, j: int|
        0 <= i < j < members.len() ==> crate::text::precedes(
            #[trigger] members[i].0,
            #[trigger] members[j].0,
        )
}

/// The value of the member `key`.
pub open spec fn member(members: Seq<(Seq<char>, Json)>, key: Seq<char>) -> Option<Json>
    decreases members.len(),
{
    if members.len() == 0 {
        None
    } else if members[0].0 == key {
        Some(members[0].1)
    } else {
        member(members.drop_first(), key)
    }
}

/// The members with `key` set to `value`: in place of what it was, or where its key belongs.
pub open spec fn with_member(
    members: Seq<(Seq<char>, Json)>,
    key: Seq<char>,
    value: Json,
) -> Seq<(Seq<char>, Json)>
    decreases members.len(),
{
    if members.len() == 0 {
        seq![(key, value)]
    } else if members[0].0 == key {
        seq![(key, value)] + members.drop_first()
    } else if crate::text::precedes(key, members[0].0) {
        seq![(key, value)] + members
    } else {
        seq![members[0]] + with_member(members.drop_first(), key, value)
    }
}

/// A member that is found is one of the members.
pub proof fn lemma_member_found(members: Seq<(Seq<char>, Json)>, key: Seq<char>) -> (at: int)
    requires
        member(members, key) is Some,
    ensures
        0 <= at < members.len(),
        members[at] == (key, member(members, key)->0),
    decreases members.len(),
{
    if members[0].0 == key {
        0
    } else {
        lemma_member_found(members.drop_first(), key) + 1
    }
}

/// Each member of an object is found under its key.
pub proof fn lemma_member_at(members: Seq<(Seq<char>, Json)>, at: int)
    requires
        sorted(members),
        0 <= at < members.len(),
    ensures
        member(members, members[at].0) == Some(members[at].1),
    decreases members.len(),
{
    if at > 0 {
        crate::text::lemma_precedes_irreflexive(members[0].0);
        assert(members[0].0 != members[at].0);
        let rest = members.drop_first();
        assert(forall|i: int| 0 <= i < rest.len() ==> rest[i] == members[i + 1]);
        assert(sorted(rest));
        lemma_member_at(rest, at - 1);
    }
}

/// A key that no member has is not found.
pub proof fn lemma_member_absent(members: Seq<(Seq<char>, Json)>, key: Seq<char>)
    requires
        forall|i: int| 0 <= i < members.len() ==> (#[trigger] members[i]).0 != key,
    ensures
        member(members, key) is None,
{
    if member(members, key) is Some {
        let at = lemma_member_found(members, key);
    }
}

/// Setting a member replaces the one with its key, or puts it in front of the first greater key;
/// the members stay in order.
pub proof fn lemma_with_member_at(
    members: Seq<(Seq<char>, Json)>,
    at: int,
    key: Seq<char>,
    value: Json,
)
    requires
        sorted(members),
        0 <= at <= members.len(),
        forall|j: int| 0 <= j < at ==> crate::text::precedes((#[trigger] members[j]).0, key),
        at < members.len() ==> members[at].0 == key || crate::text::precedes(key, members[at].0),
    ensures
        with_member(members, key, value) == if at < members.len() && members[at].0 == key {
            members.update(at, (key, value))
        } else {
            members.insert(at, (key, value))
        },
        sorted(with_member(members, key, value)),
{
    lemma_with_member_shape(members, at, key, value);
    let replaces = at < members.len() && members[at].0 == key;
    let result = with_member(members, key, value);
    assert forall|i: int, j: int| 0 <= i < j < result.len() implies crate::text::precedes(
        #[trigger] result[i].0,
        #[trigger] result[j].0,
    ) by {
        if replaces {
            let _ = (members[i].0, members[j].0);
        } else {
            let from_i = if i < at {
                i
            } else {
                i - 1
            };
            let from_j = if j < at {
                j
            } else {
                j - 1
            };
            if i == at {
                if from_j > at {
                    assert(crate::text::precedes(members[at].0, members[from_j].0));
                    crate::text::lemma_precedes_transitive(
                        key,
                        members[at].0,
                        members[from_j].0,
                    );
                }
            } else if j != at {
                assert(crate::text::precedes(members[from_i].0, members[from_j].0));
            }
        }
    }
}

proof fn lemma_with_member_shape(
    members: Seq<(Seq<char>, Json)>,
    at: int,
    key: Seq<char>,
    value: Json,
)
    requires
        0 <= at <= members.len(),
        forall|j: int| 0 <= j < at ==> crate::text::precedes((#[trigger] members[j]).0, key),
        at < members.len() ==> members[at].0 == key || crate::text::precedes(key, members[at].0),
    ensures
        with_member(members, key, value) == if at < members.len() && members[at].0 == key {
            members.update(at, (key, value))
        } else {
            members.insert(at, (key, value))
        },
    decreases members.len(),
{
    let expected = if at < members.len() && members[at].0 == key {
        members.update(at, (key, value))
    } else {
        members.insert(at, (key, value))
    };
    if at == 0 {
        assert(with_member(members, key, value) =~= expected);
    } else {
        let rest = members.drop_first();
        assert(crate::text::precedes(members[0].0, key));
        crate::text::lemma_precedes_irreflexive(key);
        if crate::text::precedes(key, members[0].0) {
            crate::text::lemma_precedes_transitive(key, members[0].0, key);
        }
        assert(forall|j: int| 0 <= j < rest.len() ==> rest[j] == members[j + 1]);
        lemma_with_member_shape(rest, at - 1, key, value);
        assert(with_member(members, key, value) =~= expected);
    }
}

/// What a read gives back of a write: the member that was set has its new value, every other
/// member the value that it had.
pub proof fn lemma_member_of_with_member(
    members: Seq<(Seq<char>, Json)>,
    key: Seq<char>,
    value: Json,
    asked: Seq<char>,
)
    ensures
        member(with_member(members, key, value), asked) == if asked == key {
            Some(value)
        } else {
            member(members, asked)
        },
    decreases members.len(),
{
    let result = with_member(members, key, value);
    if members.len() == 0 {
        assert(result.drop_first() =~= Seq::empty());
        assert(member(result.drop_first(), asked) is None);
    } else if members[0].0 == key {
        assert(result.drop_first() =~= members.drop_first());
    } else if crate::text::precedes(key, members[0].0) {
        assert(result.drop_first() =~= members);
    } else {
        assert(result.drop_first() =~= with_member(members.drop_first(), key, value));
        lemma_member_of_with_member(members.drop_first(), key, value, asked);
    }
}

/// Equal values are equal in either order.
pub proof fn lemma_same_symmetric(a: Json, b: Json)
    requires
        a.same(b),
    ensures
        b.same(a),
    decreases a,
{
    match (a, b) {
        (Json::Array(s), Json::Array(t)) => {
            assert forall|i: int|
                #![trigger s[i]]
                #![trigger t[i]]
                0 <= i < t.len() implies t[i].same(s[i]) by {
                lemma_same_symmetric(s[i], t[i]);
            }
        },
        (Json::Object(s), Json::Object(t)) => {
            assert forall|i: int|
                #![trigger s[i]]
                #![trigger t[i]]
                0 <= i < t.len() implies t[i].0 == s[i].0 && t[i].1.same(s[i].1) by {
                lemma_same_symmetric(s[i].1, t[i].1);
            }
        },
        _ => {},
    }
}

/// Every value is equal to itself.
pub proof fn lemma_same_reflexive(a: Json)
    ensures
        a.same(a),
    decreases a,
{
    match a {
        Json::Array(s) => {
            assert forall|i: int| 0 <= i < s.len() implies (#[trigger] s[i]).same(s[i]) by {
                lemma_same_reflexive(s[i]);
            }
        },
        Json::Object(s) => {
            assert forall|i: int| 0 <= i < s.len() implies (#[trigger] s[i]).1.same(s[i].1) by {
                lemma_same_reflexive(s[i].1);
            }
        },
        _ => {},
    }
}

/// Two values equal to a third are equal.
pub proof fn lemma_same_transitive(a: Json, b: Json, c: Json)
    requires
        a.same(b),
        b.same(c),
    ensures
        a.same(c),
    decreases a,
{
    match (a, b, c) {
        (Json::Array(s), Json::Array(t), Json::Array(u)) => {
            assert forall|i: int|
                #![trigger s[i]]
                #![trigger u[i]]
                0 <= i < s.len() implies s[i].same(u[i]) by {
                let _ = t[i];
                lemma_same_transitive(s[i], t[i], u[i]);
            }
        },
        (Json::Object(s), Json::Object(t), Json::Object(u)) => {
            assert forall|i: int|
                #![trigger s[i]]
                #![trigger u[i]]
                0 <= i < s.len() implies s[i].0 == u[i].0 && s[i].1.same(u[i].1) by {
                let _ = t[i];
                lemma_same_transitive(s[i].1, t[i].1, u[i].1);
            }
        },
        _ => {},
    }
}

} // verus!
