use vstd::prelude::*;
use vstd::string::StringSliceAdditionalSpecFns;

use crate::json::{
    json_document, json_input_is_within_limits, json_input_within_limits, parse_json_document,
    JsonDocument, JsonDocumentView, JsonField, JsonMember, JsonNumber,
};
use crate::pallet::Pallet;
use crate::pow10::{lemma_pow10_20, lemma_pow10_add, lemma_pow10_monotone, pow10, ten_to_the};
use vstd::arithmetic::div_mod::{
    lemma_basic_div, lemma_div_denominator, lemma_div_is_ordered_by_denominator, lemma_div_is_ordered, lemma_hoist_over_denominator,
};

verus! {

/// The key under which the feed gives the price in dollars.
pub open spec fn usd_key() -> Seq<char> {
    seq!['U', 'S', 'D']
}

/// The value of the first member of `members` whose key is `"USD"`.
pub open spec fn first_usd_value(members: Seq<(Seq<char>, JsonField)>) -> Option<JsonField>
    decreases members.len(),
{
    if members.len() == 0 {
        None
    } else if members[0].0 == usd_key() {
        Some(members[0].1)
    } else {
        first_usd_value(members.drop_first())
    }
}

/// The number that a document gives as its `"USD"` member: the document is an
/// object, its first member under `"USD"` is a number.
pub open spec fn usd_number(doc: JsonDocumentView) -> Option<JsonNumber> {
    match doc {
        JsonDocumentView::Object(members) => match first_usd_value(members) {
            Some(JsonField::Number(n)) => Some(n),
            _ => None,
        },
        JsonDocumentView::Other => None,
    }
}

/// All digits of a number as one integer: the integer part followed by the
/// `fraction_length` digits of the fraction.
pub open spec fn mantissa(n: JsonNumber) -> int {
    n.integer * pow10(n.fraction_length as nat) + n.fraction
}

/// `value * 10^e` rounded down, for an exponent of either sign.
pub open spec fn scaled(value: int, e: int) -> int {
    if e >= 0 {
        value * pow10(e as nat)
    } else {
        value / (pow10((-e) as nat) as int)
    }
}

/// A hundred times the magnitude of the number, rounded down: its value in
/// whole cents. The number is `mantissa * 10^(exponent - fraction_length)`.
pub open spec fn cents_floor(n: JsonNumber) -> int {
    scaled(mantissa(n), n.exponent + 2 - n.fraction_length)
}

/// The price in whole cents that a number stands for (rounded down): `None`
/// for a negative number other than zero, or where the cents exceed `u32`.
pub open spec fn number_cents(n: JsonNumber) -> Option<u32> {
    if n.negative && mantissa(n) != 0 {
        None
    } else if cents_floor(n) <= u32::MAX {
        Some(cents_floor(n) as u32)
    } else {
        None
    }
}

/// The price in cents that a document gives.
pub open spec fn document_price(doc: JsonDocumentView) -> Option<u32> {
    match usd_number(doc) {
        Some(n) => number_cents(n),
        None => None,
    }
}

/// The price that `parse_price` reads from the UTF-8 text with characters
/// `chars` and bytes `bytes`: `None` where the text is outside the limits
/// under which the JSON parser is known not to overflow, where the text is
/// no JSON, where no `"USD"` number is found, or where that number gives no
/// price in cents.
pub open spec fn parsed_price(chars: Seq<char>, bytes: Seq<u8>) -> Option<u32> {
    if !json_input_within_limits(bytes) {
        None
    } else {
        match json_document(chars) {
            Some(doc) => document_price(doc),
            None => None,
        }
    }
}

/// With a nonnegative exponent the whole part and the fraction scale apart;
/// with a negative one the fraction is first cut off at the point.
pub(crate) proof fn lemma_cents_split(n: JsonNumber)
    ensures
        n.exponent + 2 >= 0 ==> cents_floor(n) == scaled(n.integer as int, n.exponent + 2)
            + scaled(n.fraction as int, n.exponent + 2 - n.fraction_length),
        n.exponent + 2 < 0 ==> cents_floor(n) == scaled(
            n.integer as int + (n.fraction as int) / (pow10(n.fraction_length as nat) as int),
            n.exponent + 2,
        ),
{
    let a = n.exponent + 2;
    let fl = n.fraction_length as int;
    let k = a - fl;
    let i = n.integer as int;
    let f = n.fraction as int;
    let pf = pow10(fl as nat) as int;
    lemma_pow10_monotone(0, fl as nat);
    if a >= 0 {
        if k >= 0 {
            lemma_pow10_add(fl as nat, k as nat);
            assert((fl + k) as nat == a as nat);
            let pk = pow10(k as nat) as int;
            assert((i * pf + f) * pk == i * (pf * pk) + f * pk) by (nonlinear_arith);
        } else {
            let d = fl - a;
            lemma_pow10_add(a as nat, d as nat);
            assert((a + d) as nat == fl as nat);
            let pa = pow10(a as nat) as int;
            let pd = pow10(d as nat);
            lemma_pow10_monotone(0, d as nat);
            let j = i * pa;
            assert(i * pf == j * pd) by (nonlinear_arith)
                requires
                    pf == pa * pd,
                    j == i * pa,
            ;
            lemma_hoist_over_denominator(f, j, pd);
        }
    } else {
        let c = -a;
        lemma_pow10_add(fl as nat, c as nat);
        assert((fl + c) as nat == (-k) as nat);
        let pc = pow10(c as nat) as int;
        lemma_pow10_monotone(0, c as nat);
        assert(i * pf + f >= 0) by (nonlinear_arith)
            requires
                i >= 0,
                pf >= 1,
                f >= 0,
        ;
        lemma_div_denominator(i * pf + f, pf, pc);
        lemma_hoist_over_denominator(f, i, pf as nat);
    }
}

/// [`scaled`] keeps nonnegative values nonnegative.
proof fn lemma_scaled_nonneg(value: int, e: int)
    requires
        value >= 0,
    ensures
        scaled(value, e) >= 0,
{
    if e >= 0 {
        lemma_pow10_monotone(0, e as nat);
        let p = pow10(e as nat) as int;
        assert(value * p >= 0) by (nonlinear_arith)
            requires
                value >= 0,
                p >= 1,
        ;
    } else {
        lemma_pow10_monotone(0, (-e) as nat);
    }
}

/// Computes [`scaled`] for a `u64` and an exponent of at most 9; gives
/// `None` where the result exceeds `u32::MAX`.
fn scaled_u64(value: u64, e: i64) -> (r: Option<u128>)
    requires
        e > i64::MIN,
    ensures
        r matches Some(x) ==> x <= 0xffff_ffff_ffff_ffff * 1000000000int,
        match r {
            Some(x) => x == scaled(value as int, e as int),
            None => scaled(value as int, e as int) > u32::MAX,
        },
{
    if e >= 0 {
        if value == 0 {
            assert(0 * pow10(e as nat) == 0);
            return Some(0);
        }
        if e > 9 {
            proof {
                lemma_pow10_monotone(10, e as nat);
                reveal_with_fuel(pow10, 11);
                let p = pow10(e as nat) as int;
                assert(value * p >= p) by (nonlinear_arith)
                    requires
                        value >= 1,
                        p >= 1,
                ;
            }
            return None;
        }
        let p = ten_to_the(e as u32);
        proof {
            reveal_with_fuel(pow10, 10);
            lemma_pow10_monotone(e as nat, 9);
            assert(value as int * p <= 0xffff_ffff_ffff_ffff * 1000000000int) by (nonlinear_arith)
                requires
                    value <= 0xffff_ffff_ffff_ffffint,
                    p <= 1000000000int,
            ;
        }
        Some(value as u128 * p as u128)
    } else {
        let d = -e;
        proof {
            lemma_pow10_monotone(0, d as nat);
        }
        if d > 19 {
            proof {
                lemma_pow10_20();
                lemma_pow10_monotone(20, d as nat);
                lemma_basic_div(value as int, pow10(d as nat) as int);
            }
            return Some(0);
        }
        let p = ten_to_the(d as u32);
        proof {
            lemma_div_is_ordered_by_denominator(value as int, 1, p as int);
        }
        Some((value / p) as u128)
    }
}

/// `key` is `"USD"`.
fn is_usd_key(key: &Vec<char>) -> (r: bool)
    ensures
        r == (key@ == usd_key()),
{
    if key.len() == 3 && key[0] == 'U' && key[1] == 'S' && key[2] == 'D' {
        assert(key@ =~= usd_key());
        true
    } else {
        false
    }
}

impl Pallet {
    /// Converts a JSON number to a price in whole cents, rounded down: `None`
    /// for a negative number other than zero and where the cents exceed
    /// `u32::MAX`.
    pub fn price_from_number(n: &JsonNumber) -> (r: Option<u32>)
        ensures
            r == number_cents(*n),
    {
        proof {
            lemma_cents_split(*n);
            lemma_pow10_monotone(0, n.fraction_length as nat);
            let pf = pow10(n.fraction_length as nat) as int;
            assert(n.integer * pf >= 0) by (nonlinear_arith)
                requires
                    pf >= 1,
            ;
            assert(n.integer > 0 ==> n.integer * pf >= 1) by (nonlinear_arith)
                requires
                    pf >= 1,
            ;
            assert(n.integer == 0 ==> n.integer * pf == 0) by (nonlinear_arith);
            assert((mantissa(*n) != 0) == (n.integer != 0 || n.fraction != 0));
        }
        if n.negative && (n.integer != 0 || n.fraction != 0) {
            return None;
        }
        let a: i64 = n.exponent as i64 + 2;
        let fl: i64 = n.fraction_length as i64;
        let cents: u128;
        if a >= 0 {
            let whole = match scaled_u64(n.integer, a) {
                Some(x) => x,
                None => {
                    proof {
                        lemma_scaled_nonneg(n.fraction as int, a - fl);
                    }
                    return None;
                },
            };
            let part = match scaled_u64(n.fraction, a - fl) {
                Some(x) => x,
                None => {
                    proof {
                        lemma_scaled_nonneg(n.integer as int, a as int);
                    }
                    return None;
                },
            };
            cents = whole + part;
            assert(cents == cents_floor(*n));
        } else {
            let quotient: u64 = if fl > 19 {
                proof {
                    lemma_pow10_20();
                    lemma_pow10_monotone(20, fl as nat);
                    lemma_basic_div(n.fraction as int, pow10(fl as nat) as int);
                }
                0
            } else {
                n.fraction / ten_to_the(fl as u32)
            };
            proof {
                lemma_div_is_ordered(n.fraction as int, n.fraction as int, 1);
                lemma_div_is_ordered(
                    n.fraction as int,
                    n.fraction as int * 1,
                    pow10(fl as nat) as int,
                );
            }
            let sum: u128 = n.integer as u128 + quotient as u128;
            let c: i64 = -a;
            proof {
                lemma_pow10_monotone(0, c as nat);
            }
            if c > 19 {
                proof {
                    lemma_pow10_20();
                    lemma_pow10_monotone(20, c as nat);
                    lemma_basic_div(sum as int, pow10(c as nat) as int);
                }
                cents = 0;
            } else {
                cents = sum / (ten_to_the(c as u32) as u128);
            }
            assert(sum == n.integer as int + (n.fraction as int) / (pow10(n.fraction_length as nat) as int));
            assert(cents == cents_floor(*n));
        }
        if cents > 0xffff_ffff {
            None
        } else {
            Some(cents as u32)
        }
    }

    /// Finds the number under the first `"USD"` member of a JSON object.
    pub fn usd_number_of(doc: &JsonDocument) -> (r: Option<JsonNumber>)
        ensures
            r == usd_number(doc@),
    {
        match doc {
            JsonDocument::Object(members) => {
                let ghost ms = members@.map_values(|m: JsonMember| m@);
                let n = members.len();
                let mut i: usize = 0;
                assert(ms.skip(0) =~= ms);
                assert(doc@ == JsonDocumentView::Object(ms));
                while i < n
                    invariant
                        n == members@.len(),
                        ms == members@.map_values(|m: JsonMember| m@),
                        doc@ == JsonDocumentView::Object(ms),
                        i <= n,
                        first_usd_value(ms) == first_usd_value(ms.skip(i as int)),
                    decreases n - i,
                {
                    let member = &members[i];
                    proof {
                        assert(ms.skip(i as int)[0] == member@);
                        assert(ms.skip(i as int).drop_first() =~= ms.skip(i + 1));
                    }
                    if is_usd_key(&member.key) {
                        assert(first_usd_value(ms.skip(i as int)) == Some(member.value));
                        return match member.value {
                            JsonField::Number(number) => Some(number),
                            JsonField::Other => None,
                        };
                    }
                    i = i + 1;
                }
                proof {
                    assert(ms.skip(n as int).len() == 0);
                }
                None
            },
            JsonDocument::Other => None,
        }
    }

    /// Reads the price in cents from a parsed JSON document: the first member
    /// of the object under the key `"USD"` must be a number.
    pub fn price_from_document(doc: &JsonDocument) -> (r: Option<u32>)
        ensures
            r == document_price(doc@),
    {
        match Self::usd_number_of(doc) {
            Some(n) => Self::price_from_number(&n),
            None => None,
        }
    }

    /// Parses the price from the given JSON text using `lite-json`.
    ///
    /// Returns `None` when parsing failed or `Some(price in cents)` when parsing
    /// is successful: the `"USD"` number times 100, rounded down. It also
    /// returns `None` for a negative price, for cents beyond `u32::MAX`, and
    /// for a text outside the limits under which the parser is known not to
    /// overflow (see `json_input_within_limits`).
    pub fn parse_price(price_str: &str) -> (r: Option<u32>)
        ensures
            r == parsed_price(price_str@, price_str.spec_bytes()),
    {
        if !json_input_is_within_limits(price_str) {
            return None;
        }
        match parse_json_document(price_str) {
            Some(doc) => Self::price_from_document(&doc),
            None => None,
        }
    }
}

} // verus!
