use vstd::prelude::*;

use crate::http::{endpoint_text, HTTP_DEFAULT_ENDPOINT};
use crate::pallet::{
    average_of, lemma_sum_bounded, prices_after_add, sum_of, AccountId, BlockNumber, Call, DispatchError, Origin, PalletState,
};
use crate::validation::{
    distance_from_average, parameters_validity, provides_tag, unsigned_validity,
    InvalidTransaction,
};
use crate::worker::{worker_action, WorkerAction, WorkerEvent};
use crate::json::{JsonDocumentView, JsonField, JsonNumber};
use crate::price::{lemma_cents_split, number_cents, usd_number};
use crate::pow10::{lemma_pow10_monotone, pow10};
use crate::http::response_price;
use crate::validation::{UNSIGNED_LONGEVITY, UNSIGNED_TAG_PREFIX, ValidTransactionView};
use vstd::arithmetic::div_mod::{lemma_fundamental_div_mod, lemma_mod_pos_bound};
use vstd::string::StringSliceAdditionalSpecFns;
use vstd::utf8::{decode_utf8, valid_utf8};

verus! {

/// Every call keeps the storage bounds: at most `max_prices` prices and an
/// endpoint of at most `max_endpoint_length` bytes.
pub proof fn law_calls_keep_storage_bounds(
    s: PalletState,
    origin: Origin,
    price: u32,
    endpoint: Seq<u8>,
    block_number: BlockNumber,
)
    requires
        s.wf(),
        s.config.max_prices > 0,
    ensures
        s.set_endpoint_outcome(origin, endpoint).1.wf(),
        s.submit_price_outcome(origin, price).1.wf(),
        s.submit_price_unsigned_outcome(origin, block_number, price).1.wf(),
{
}

/// The price buffer grows by one price per added price until it holds
/// `max_prices` prices, and then stays that full.
pub proof fn law_buffer_fills_then_stays_full(s: PalletState, who: Option<AccountId>, price: u32)
    requires
        s.wf(),
        s.config.max_prices > 0,
    ensures
        s.prices.len() < s.config.max_prices ==> s.after_add_price(who, price).prices.len()
            == s.prices.len() + 1,
        s.prices.len() == s.config.max_prices ==> s.after_add_price(who, price).prices.len()
            == s.config.max_prices,
        s.after_add_price(who, price).prices.contains(price),
{
    let after = s.after_add_price(who, price).prices;
    if s.prices.len() < s.config.max_prices {
        assert(after[s.prices.len() as int] == price);
    } else {
        assert(after[after.len() - 1] == price);
    }
}

/// After a price is added there is an average: the `NewPrice` event always
/// carries the average of the prices just stored.
pub proof fn law_average_exists_after_add(s: PalletState, who: Option<AccountId>, price: u32)
    requires
        s.wf(),
        s.config.max_prices > 0,
    ensures
        average_of(s.after_add_price(who, price).prices) is Some,
        s.after_add_price(who, price).events.last() == (crate::pallet::EventView::NewPrice {
            price,
            average: average_of(s.after_add_price(who, price).prices).unwrap(),
            maybe_who: who,
        }),
{
}

/// The average lies between the lowest and the highest stored price: it is
/// at least any lower bound and at most any upper bound of all of them.
pub proof fn law_average_between_extremes(prices: Seq<u32>, low: u32, high: u32)
    requires
        prices.len() > 0,
        forall|i: int| 0 <= i < prices.len() ==> low <= #[trigger] prices[i] <= high,
    ensures
        low <= average_of(prices).unwrap() <= high,
{
    lemma_sum_bounded(prices, high as int);
    lemma_sum_at_least(prices, low as int);
    let sum = sum_of(prices);
    let n = prices.len() as int;
    assert(sum / n <= high) by (nonlinear_arith)
        requires
            sum <= n * high,
            n > 0,
            sum >= 0,
    ;
    assert(low <= sum / n) by (nonlinear_arith)
        requires
            n * low <= sum,
            n > 0,
            low >= 0,
    ;
}

/// Prices that are all at least `bound` sum to at least their number times
/// `bound`.
proof fn lemma_sum_at_least(prices: Seq<u32>, bound: int)
    requires
        forall|i: int| 0 <= i < prices.len() ==> bound <= prices[i],
    ensures
        prices.len() * bound <= sum_of(prices),
    decreases prices.len(),
{
    if prices.len() > 0 {
        let rest = prices.drop_last();
        lemma_sum_at_least(rest, bound);
        let n = rest.len() as int;
        assert(n * bound + bound == (n + 1) * bound) by (nonlinear_arith);
    }
}

/// Taking out the price at `j` takes it out of the sum.
proof fn lemma_sum_remove(prices: Seq<u32>, j: int)
    requires
        0 <= j < prices.len(),
    ensures
        sum_of(prices) == sum_of(prices.remove(j)) + prices[j],
    decreases prices.len(),
{
    if j == prices.len() - 1 {
        assert(prices.remove(j) =~= prices.drop_last());
    } else {
        lemma_sum_remove(prices.drop_last(), j);
        assert(prices.drop_last().remove(j) =~= prices.remove(j).drop_last());
    }
}

/// Prices that are the same as a multiset have the same sum.
proof fn lemma_sum_permutation(p1: Seq<u32>, p2: Seq<u32>)
    requires
        p1.to_multiset() =~= p2.to_multiset(),
    ensures
        sum_of(p1) == sum_of(p2),
    decreases p1.len(),
{
    broadcast use vstd::seq_lib::group_to_multiset_ensures;

    p1.to_multiset_ensures();
    p2.to_multiset_ensures();
    if p1.len() == 0 {
        assert(p2.len() == 0);
    } else {
        let x = p1.last();
        let rest = p1.drop_last();
        assert(p1 =~= rest.push(x));
        assert(p1.to_multiset() =~= rest.to_multiset().insert(x));
        assert(p2.to_multiset().count(x) > 0);
        assert(p2.contains(x));
        let j = choose|j: int| 0 <= j < p2.len() && p2[j] == x;
        assert(p2.remove(j).to_multiset() =~= p2.to_multiset().remove(x));
        assert(rest.to_multiset() =~= rest.to_multiset().insert(x).remove(x));
        lemma_sum_permutation(rest, p2.remove(j));
        lemma_sum_remove(p2, j);
    }
}

/// The average does not depend on the order of the stored prices.
pub proof fn law_average_ignores_order(p1: Seq<u32>, p2: Seq<u32>)
    requires
        p1.to_multiset() =~= p2.to_multiset(),
    ensures
        average_of(p1) == average_of(p2),
{
    broadcast use vstd::seq_lib::group_to_multiset_ensures;

    lemma_sum_permutation(p1, p2);
    p1.to_multiset_ensures();
    p2.to_multiset_ensures();
    assert(p1.len() == p2.len());
}

/// A call on the pallet, as its storage model sees it.
pub enum PalletCall {
    AddPrice { who: Option<AccountId>, price: u32 },
    SubmitPrice { origin: Origin, price: u32 },
    SubmitPriceUnsigned { origin: Origin, block_number: BlockNumber, price: u32 },
    SetEndpoint { origin: Origin, endpoint: Seq<u8> },
    SetBlockNumber { block_number: BlockNumber },
}

/// The state after `call`.
pub open spec fn after_call(s: PalletState, call: PalletCall) -> PalletState {
    match call {
        PalletCall::AddPrice { who, price } => s.after_add_price(who, price),
        PalletCall::SubmitPrice { origin, price } => s.submit_price_outcome(origin, price).1,
        PalletCall::SubmitPriceUnsigned { origin, block_number, price } => s.submit_price_unsigned_outcome(
            origin,
            block_number,
            price,
        ).1,
        PalletCall::SetEndpoint { origin, endpoint } => s.set_endpoint_outcome(origin, endpoint).1,
        PalletCall::SetBlockNumber { block_number } => PalletState { block_number, ..s },
    }
}

/// The state after `calls`, one after another.
pub open spec fn after_calls(s: PalletState, calls: Seq<PalletCall>) -> PalletState
    decreases calls.len(),
{
    if calls.len() == 0 {
        s
    } else {
        after_call(after_calls(s, calls.drop_last()), calls.last())
    }
}

/// The price that `call` adds to the buffer, where it adds one: `add_price`
/// always, `submit_price` from the root, `submit_price_unsigned` unsigned.
pub open spec fn added_price(call: PalletCall) -> Option<u32> {
    match call {
        PalletCall::AddPrice { price, .. } => Some(price),
        PalletCall::SubmitPrice { origin, price } => if origin is Root {
            Some(price)
        } else {
            None
        },
        PalletCall::SubmitPriceUnsigned { origin, price, .. } => if origin is Unsigned {
            Some(price)
        } else {
            None
        },
        _ => None,
    }
}

/// The prices that `calls` add, in order.
pub open spec fn added_prices(calls: Seq<PalletCall>) -> Seq<u32>
    decreases calls.len(),
{
    if calls.len() == 0 {
        Seq::empty()
    } else {
        match added_price(calls.last()) {
            Some(price) => added_prices(calls.drop_last()).push(price),
            None => added_prices(calls.drop_last()),
        }
    }
}

/// The last `min(q.len(), max)` elements of `q`, oldest first.
pub open spec fn last_prices(q: Seq<u32>, max: u32) -> Seq<u32> {
    q.subrange(
        if q.len() > max {
            q.len() - max
        } else {
            0
        },
        q.len() as int,
    )
}

/// Starting from no prices, whatever calls are made, the buffer holds
/// exactly the last `min(k, max_prices)` of the `k` prices that were added
/// (by `add_price`, `submit_price` from the root or `submit_price_unsigned`),
/// oldest first; the configuration never changes.
pub proof fn law_buffer_keeps_last_prices(s: PalletState, calls: Seq<PalletCall>)
    requires
        s.prices.len() == 0,
        s.config.max_prices > 0,
    ensures
        after_calls(s, calls).config == s.config,
        after_calls(s, calls).prices == last_prices(added_prices(calls), s.config.max_prices),
    decreases calls.len(),
{
    let m = s.config.max_prices as int;
    if calls.len() == 0 {
        assert(last_prices(Seq::empty(), s.config.max_prices) =~= s.prices);
    } else {
        let before = calls.drop_last();
        law_buffer_keeps_last_prices(s, before);
        let q0 = added_prices(before);
        let k = q0.len() as int;
        match added_price(calls.last()) {
            Some(price) => {
                let q = q0.push(price);
                assert(after_calls(s, calls).prices == prices_after_add(
                    last_prices(q0, s.config.max_prices),
                    s.config.max_prices,
                    price,
                ));
                if k < m {
                    assert(last_prices(q, s.config.max_prices) =~= last_prices(
                        q0,
                        s.config.max_prices,
                    ).push(price));
                } else {
                    assert(last_prices(q, s.config.max_prices) =~= last_prices(
                        q0,
                        s.config.max_prices,
                    ).drop_first().push(price));
                }
            },
            None => {},
        }
    }
}

/// An unsigned price submission adds the price exactly as a submission by
/// the root does, with the same event; the two differ only in the block from
/// which the next unsigned transaction is accepted.
pub proof fn law_unsigned_submission_adds_like_root(
    s: PalletState,
    block_number: BlockNumber,
    price: u32,
)
    ensures
        s.submit_price_unsigned_outcome(Origin::Unsigned, block_number, price).0 is Ok,
        s.submit_price_outcome(Origin::Root, price).0 is Ok,
        s.submit_price_unsigned_outcome(Origin::Unsigned, block_number, price).1 == (PalletState {
            next_unsigned_at: (s.block_number + s.config.unsigned_interval) as u32,
            ..s.submit_price_outcome(Origin::Root, price).1
        }),
{
}

/// The block an unsigned submission was made for has no effect on its
/// dispatch; only validation reads it.
pub proof fn law_unsigned_block_argument_ignored(
    s: PalletState,
    origin: Origin,
    b1: BlockNumber,
    b2: BlockNumber,
    price: u32,
)
    ensures
        s.submit_price_unsigned_outcome(origin, b1, price) == s.submit_price_unsigned_outcome(
            origin,
            b2,
            price,
        ),
{
}

/// A price submitted by the root becomes the last price; any other origin is
/// refused with `BadOrigin` and changes nothing.
pub proof fn law_submit_price_sets_last_price(s: PalletState, origin: Origin, price: u32)
    ensures
        origin is Root ==> s.submit_price_outcome(origin, price).0 == Ok::<(), DispatchError>(())
            && s.submit_price_outcome(origin, price).1.price == price,
        !(origin is Root) ==> s.submit_price_outcome(origin, price) == (
            Err::<(), DispatchError>(DispatchError::BadOrigin),
            s,
        ),
{
}

/// Reading the endpoint gives back what `set_endpoint` accepted; an empty
/// endpoint means the default one.
pub proof fn law_endpoint_read_after_write(s: PalletState, endpoint: Seq<u8>)
    ensures
        s.set_endpoint_outcome(Origin::Root, endpoint).0 is Ok ==> s.set_endpoint_outcome(
            Origin::Root,
            endpoint,
        ).1.http_endpoint == endpoint,
        endpoint.len() <= s.config.max_endpoint_length <==> s.set_endpoint_outcome(
            Origin::Root,
            endpoint,
        ).0 is Ok,
        endpoint_text(Seq::empty()) == HTTP_DEFAULT_ENDPOINT@,
{
}

/// Unsigned price transactions are accepted once every `unsigned_interval`
/// blocks: after one is included at the current block, every unsigned price
/// transaction made for a block before the current block plus the interval
/// is rejected as stale, whatever block the chain has reached.
pub proof fn law_unsigned_once_per_interval(
    s: PalletState,
    price: u32,
    now: BlockNumber,
    block_number: BlockNumber,
    new_price: u32,
)
    requires
        s.block_number + s.config.unsigned_interval <= u32::MAX,
        block_number < s.block_number + s.config.unsigned_interval,
    ensures
        ({
            let after = s.submit_price_unsigned_outcome(Origin::Unsigned, block_number, price).1;
            parameters_validity(PalletState { block_number: now, ..after }, block_number, new_price)
                == Err::<crate::validation::ValidTransactionView, InvalidTransaction>(
                InvalidTransaction::Stale,
            )
        }),
{
}

/// Only `submit_price_unsigned` may come unsigned: every other call is
/// rejected with `InvalidTransaction::Call`.
pub proof fn law_only_price_submissions_unsigned(s: PalletState, call: Call)
    requires
        !(call is SubmitPriceUnsigned),
    ensures
        unsigned_validity(s, call) == Err::<crate::validation::ValidTransactionView, InvalidTransaction>(
            InvalidTransaction::Call,
        ),
{
}

/// All unsigned price transactions valid while the next one is accepted
/// from the same block provide the same single tag, so that the pool
/// includes only one of them.
pub proof fn law_one_tag_per_slot(
    s1: PalletState,
    b1: BlockNumber,
    p1: u32,
    s2: PalletState,
    b2: BlockNumber,
    p2: u32,
)
    requires
        s1.next_unsigned_at == s2.next_unsigned_at,
        parameters_validity(s1, b1, p1) is Ok,
        parameters_validity(s2, b2, p2) is Ok,
    ensures
        parameters_validity(s1, b1, p1)->Ok_0.provides == parameters_validity(
            s2,
            b2,
            p2,
        )->Ok_0.provides,
        parameters_validity(s1, b1, p1)->Ok_0.provides == seq![provides_tag(s1.next_unsigned_at)],
{
}

/// The further a price lies from the average, the higher the priority of
/// its transaction, and never below the base priority.
pub proof fn law_priority_grows_with_distance(
    s: PalletState,
    b: BlockNumber,
    p1: u32,
    p2: u32,
)
    requires
        parameters_validity(s, b, p1) is Ok,
        distance_from_average(average_of(s.prices), p1) <= distance_from_average(
            average_of(s.prices),
            p2,
        ),
    ensures
        parameters_validity(s, b, p2) is Ok,
        s.config.unsigned_priority <= parameters_validity(s, b, p1)->Ok_0.priority
            <= parameters_validity(s, b, p2)->Ok_0.priority,
{
}

/// The worker fetches a price only when a transaction for this block would
/// not be stale, and what it then submits for the current block is accepted
/// by validation in the same state.
pub proof fn law_worker_submits_only_valid(s: PalletState, price: u32)
    ensures
        worker_action(s, WorkerEvent::Started { block_number: s.block_number }) is FetchPrice
            <==> s.next_unsigned_at <= s.block_number,
        worker_action(s, WorkerEvent::Started { block_number: s.block_number }) is FetchPrice
            ==> (match worker_action(
            s,
            WorkerEvent::PriceFetched { block_number: s.block_number, result: Ok(price) },
        ) {
            WorkerAction::SubmitUnsigned(call) => unsigned_validity(s, call) is Ok,
            _ => false,
        }),
{
}

/// The price of a nonnegative number is its value in whole cents, rounded
/// down: the number is `m * 10^(exponent - fraction_length)` with `m` its
/// digits taken as one integer, so a hundred times it is `num / den` below,
/// and the price `c` is the one with `den * c <= num < den * (c + 1)`.
/// There is no price exactly when those cents exceed `u32::MAX`.
pub proof fn law_price_is_value_in_whole_cents(n: JsonNumber)
    requires
        !n.negative,
    ensures
        ({
            let m = n.integer * pow10(n.fraction_length as nat) + n.fraction;
            let k = n.exponent + 2 - n.fraction_length;
            let num = if k >= 0 {
                m * pow10(k as nat)
            } else {
                m
            };
            let den = if k >= 0 {
                1int
            } else {
                pow10((-k) as nat) as int
            };
            match number_cents(n) {
                Some(c) => den * c <= num < den * (c + 1),
                None => num >= den * (u32::MAX + 1),
            }
        }),
{
    let m = n.integer * pow10(n.fraction_length as nat) + n.fraction;
    let k = n.exponent + 2 - n.fraction_length;
    lemma_pow10_monotone(0, n.fraction_length as nat);
    let pf = pow10(n.fraction_length as nat) as int;
    assert(n.integer * pf >= 0) by (nonlinear_arith)
        requires
            pf >= 1,
    ;
    if k < 0 {
        let den = pow10((-k) as nat) as int;
        lemma_pow10_monotone(0, (-k) as nat);
        lemma_fundamental_div_mod(m, den);
        lemma_mod_pos_bound(m, den);
        let q = m / den;
        let r = m % den;
        assert(den * (q + 1) == den * q + den) by (nonlinear_arith);
        if q > u32::MAX {
            assert(den * q >= den * (u32::MAX + 1)) by (nonlinear_arith)
                requires
                    q >= u32::MAX + 1,
                    den >= 1,
            ;
        }
    }
}

/// For a plain decimal (no exponent, not negative) the price is the
/// integer part times 100 plus the fraction cut to cents: divided by
/// `10^(fraction_length - 2)` for two or more fraction digits, multiplied by
/// `10^(2 - fraction_length)` for fewer; no price where that exceeds
/// `u32::MAX`.
pub proof fn law_price_of_plain_decimal(n: JsonNumber)
    requires
        !n.negative,
        n.exponent == 0,
    ensures
        ({
            let cents = if n.fraction_length >= 2 {
                n.integer * 100 + (n.fraction as int) / (pow10((n.fraction_length - 2) as nat) as int)
            } else {
                n.integer * 100 + n.fraction * pow10((2 - n.fraction_length) as nat)
            };
            number_cents(n) == if cents <= u32::MAX {
                Some(cents as u32)
            } else {
                None::<u32>
            }
        }),
{
    lemma_cents_split(n);
    reveal_with_fuel(pow10, 3);
    assert(pow10(2) == 100);
    assert(crate::price::scaled(n.integer as int, n.exponent + 2) == n.integer * 100);
    let fl = n.fraction_length as int;
    if fl >= 2 {
        assert((-(n.exponent + 2 - fl)) as nat == (fl - 2) as nat);
        assert(fl == 2 ==> crate::price::scaled(n.fraction as int, n.exponent + 2 - fl) == (n.fraction as int) / (pow10((fl - 2) as nat) as int)) by {
            assert(pow10(0) == 1);
            assert(n.fraction as int * 1 == (n.fraction as int) / 1);
        }
    }
    lemma_pow10_monotone(0, n.fraction_length as nat);
    let pf = pow10(n.fraction_length as nat) as int;
    assert(n.integer * pf >= 0) by (nonlinear_arith)
        requires
            pf >= 1,
    ;
    assert(n.integer == 0 ==> n.integer * pf == 0) by (nonlinear_arith);
    assert(n.integer > 0 ==> n.integer * pf >= 1) by (nonlinear_arith)
        requires
            pf >= 1,
    ;
}

/// The price is read from the first member keyed `"USD"`: where that member
/// holds a number, it is the document's number, and a document with no member
/// keyed `"USD"` has none.
pub proof fn law_usd_number_is_first_usd_member(members: Seq<(Seq<char>, JsonField)>, i: int)
    requires
        0 <= i < members.len(),
        members[i].0 == seq!['U', 'S', 'D'],
        forall|j: int| 0 <= j < i ==> members[j].0 != seq!['U', 'S', 'D'],
    ensures
        usd_number(JsonDocumentView::Object(members)) == match members[i].1 {
            JsonField::Number(n) => Some(n),
            JsonField::Other => None::<JsonNumber>,
        },
    decreases i,
{
    if i > 0 {
        assert(members[0].0 != seq!['U', 'S', 'D']);
        let rest = members.drop_first();
        assert forall|j: int| 0 <= j < i - 1 implies rest[j].0 != seq!['U', 'S', 'D'] by {
            assert(rest[j] == members[j + 1]);
        }
        law_usd_number_is_first_usd_member(rest, i - 1);
    }
}

/// A document none of whose members is keyed `"USD"` gives no number.
pub proof fn law_no_usd_member_no_number(members: Seq<(Seq<char>, JsonField)>)
    requires
        forall|j: int| 0 <= j < members.len() ==> members[j].0 != seq!['U', 'S', 'D'],
    ensures
        usd_number(JsonDocumentView::Object(members)) is None,
    decreases members.len(),
{
    if members.len() > 0 {
        let rest = members.drop_first();
        assert forall|j: int| 0 <= j < rest.len() implies rest[j].0 != seq!['U', 'S', 'D'] by {
            assert(rest[j] == members[j + 1]);
        }
        law_no_usd_member_no_number(rest);
    }
}

/// The average of stored prices is their arithmetic mean rounded down: for
/// `n` prices it is the `a` with `n * a <= sum < n * (a + 1)`.
pub proof fn law_average_is_mean_rounded_down(prices: Seq<u32>)
    requires
        prices.len() > 0,
    ensures
        average_of(prices) is Some,
        prices.len() * average_of(prices).unwrap() <= sum_of(prices) < prices.len() * (
        average_of(prices).unwrap() + 1),
{
    lemma_sum_bounded(prices, u32::MAX as int);
    let sum = sum_of(prices);
    let n = prices.len() as int;
    lemma_fundamental_div_mod(sum, n);
    lemma_mod_pos_bound(sum, n);
    let q = sum / n;
    assert(q <= u32::MAX) by (nonlinear_arith)
        requires
            sum <= n * 0xffff_ffffint,
            n > 0,
            sum >= 0,
            q == sum / n,
    ;
    assert(q >= 0) by (nonlinear_arith)
        requires
            sum >= 0,
            n > 0,
            q == sum / n,
    ;
    assert(n * (q + 1) == n * q + n) by (nonlinear_arith);
}

/// A valid unsigned price transaction has as priority the base priority
/// plus the distance of its price from the current average (0 without
/// prices), capped only at `u64::MAX`; it is valid for `UNSIGNED_LONGEVITY`
/// blocks, gossiped, requires nothing and provides the single tag made of
/// the length byte of the prefix, the prefix's bytes and the four
/// little-endian bytes of `next_unsigned_at`. It is stale before
/// `next_unsigned_at` and in the future after the current block.
pub proof fn law_validity_of_unsigned_price(s: PalletState, b: BlockNumber, p: u32)
    ensures
        s.next_unsigned_at > b ==> parameters_validity(s, b, p) == Err::<
            ValidTransactionView,
            InvalidTransaction,
        >(InvalidTransaction::Stale),
        s.next_unsigned_at <= b && s.block_number < b ==> parameters_validity(s, b, p) == Err::<
            ValidTransactionView,
            InvalidTransaction,
        >(InvalidTransaction::Future),
        s.next_unsigned_at <= b <= s.block_number ==> ({
            let distance: int = match average_of(s.prices) {
                Some(a) => if a >= p {
                    a - p
                } else {
                    p - a
                },
                None => 0,
            };
            let t = s.next_unsigned_at;
            &&& parameters_validity(s, b, p) is Ok
            &&& parameters_validity(s, b, p)->Ok_0.priority == if s.config.unsigned_priority
                + distance > u64::MAX {
                u64::MAX as int
            } else {
                s.config.unsigned_priority + distance
            }
            &&& parameters_validity(s, b, p)->Ok_0.longevity == UNSIGNED_LONGEVITY
            &&& parameters_validity(s, b, p)->Ok_0.propagate
            &&& parameters_validity(s, b, p)->Ok_0.requires.len() == 0
            &&& parameters_validity(s, b, p)->Ok_0.provides == seq![
                seq![(UNSIGNED_TAG_PREFIX.spec_bytes().len() * 4) as u8]
                    + UNSIGNED_TAG_PREFIX.spec_bytes() + seq![
                    (t % 256) as u8,
                    ((t / 256) % 256) as u8,
                    ((t / 65536) % 256) as u8,
                    ((t / 16777216) % 256) as u8,
                ],
            ]
        }),
{
    reveal_strlit("ExampleOffchainWorker");
    assert(vstd::utf8::is_ascii_chars(UNSIGNED_TAG_PREFIX@));
    vstd::utf8::is_ascii_chars_encode_utf8(UNSIGNED_TAG_PREFIX@);
    assert(UNSIGNED_TAG_PREFIX.spec_bytes().len() == 21);
    let t = s.next_unsigned_at;
    reveal_with_fuel(crate::validation::le_bytes, 5);
    assert(crate::validation::le_bytes(t as nat, 4) =~= seq![
        (t % 256) as u8,
        ((t / 256) % 256) as u8,
        ((t / 65536) % 256) as u8,
        ((t / 16777216) % 256) as u8,
    ]) by {
        assert((t as nat / 256) / 256 == t as nat / 65536) by (nonlinear_arith);
        assert(((t as nat / 256) / 256) / 256 == t as nat / 16777216) by (nonlinear_arith);
    }
}

/// A fetched price is submitted unchanged, for the block it was fetched
/// at; a failed fetch ends the run.
pub proof fn law_worker_submits_fetched_price(
    s: PalletState,
    b: BlockNumber,
    p: u32,
    e: crate::http::HttpError,
)
    ensures
        worker_action(s, WorkerEvent::PriceFetched { block_number: b, result: Ok(p) })
            == WorkerAction::SubmitUnsigned(Call::SubmitPriceUnsigned { block_number: b, price: p }),
        worker_action(s, WorkerEvent::PriceFetched { block_number: b, result: Err(e) })
            == WorkerAction::Finish(Err(crate::worker::WorkerError::FetchFailed)),
{
}

/// A run of the worker for block `b` stops at once as too early exactly
/// when an unsigned transaction for `b` would be stale, and otherwise
/// fetches the price; after submitting, it ends with the submission's
/// outcome.
pub proof fn law_worker_start_and_finish(s: PalletState, b: BlockNumber)
    ensures
        worker_action(s, WorkerEvent::Started { block_number: b }) == if s.next_unsigned_at > b {
            WorkerAction::Finish(Err(crate::worker::WorkerError::TooEarly))
        } else {
            WorkerAction::FetchPrice
        },
        s.next_unsigned_at > b <==> parameters_validity(s, b, 0) == Err::<
            ValidTransactionView,
            InvalidTransaction,
        >(InvalidTransaction::Stale),
        worker_action(s, WorkerEvent::Submitted { result: Ok(()) }) == WorkerAction::Finish(Ok(())),
        worker_action(s, WorkerEvent::Submitted { result: Err(()) }) == WorkerAction::Finish(
            Err(crate::worker::WorkerError::SubmitFailed),
        ),
{
}

/// Every call checks its origin first: from any other origin it is refused
/// with `BadOrigin` and changes nothing. An endpoint the root sets is stored
/// and reported by one `NewHttpEndpoint` event after the earlier ones.
pub proof fn law_calls_check_origin(
    s: PalletState,
    origin: Origin,
    endpoint: Seq<u8>,
    block_number: BlockNumber,
    price: u32,
)
    ensures
        !(origin is Root) ==> s.set_endpoint_outcome(origin, endpoint) == (
            Err::<(), DispatchError>(DispatchError::BadOrigin),
            s,
        ),
        !(origin is Unsigned) ==> s.submit_price_unsigned_outcome(origin, block_number, price) == (
            Err::<(), DispatchError>(DispatchError::BadOrigin),
            s,
        ),
        s.set_endpoint_outcome(Origin::Root, endpoint).0 is Ok ==> s.set_endpoint_outcome(
            Origin::Root,
            endpoint,
        ).1.events == s.events.push(crate::pallet::EventView::NewHttpEndpoint { endpoint }),
{
}

/// Validating an unsigned `submit_price_unsigned` call checks its block and
/// price as transaction parameters.
pub proof fn law_unsigned_call_checks_parameters(s: PalletState, b: BlockNumber, p: u32)
    ensures
        unsigned_validity(s, Call::SubmitPriceUnsigned { block_number: b, price: p })
            == parameters_validity(s, b, p),
{
}

/// On a text within the parser's limits, the price read is the price of the
/// number under the document's first `"USD"` member; a text that is no JSON
/// gives none.
pub proof fn law_parse_price_reads_usd_number(chars: Seq<char>, bytes: Seq<u8>)
    requires
        crate::json::json_input_within_limits(bytes),
    ensures
        crate::json::json_document(chars) is None ==> crate::price::parsed_price(chars, bytes)
            is None,
        crate::json::json_document(chars) matches Some(doc) ==> crate::price::parsed_price(
            chars,
            bytes,
        ) == match usd_number(doc) {
            Some(n) => number_cents(n),
            None => None::<u32>,
        },
{
}

/// The price is fetched from the stored endpoint whenever one is stored and
/// is UTF-8, read exactly as its text; only an empty or non-UTF-8 endpoint
/// falls back to the default one. In particular after the root sets a
/// nonempty UTF-8 endpoint, that is the endpoint fetched from.
pub proof fn law_endpoint_is_stored_text(s: PalletState, endpoint: Seq<u8>)
    ensures
        endpoint.len() > 0 && valid_utf8(endpoint) ==> endpoint_text(endpoint) == decode_utf8(
            endpoint,
        ),
        endpoint.len() == 0 || !valid_utf8(endpoint) ==> endpoint_text(endpoint)
            == HTTP_DEFAULT_ENDPOINT@,
        s.set_endpoint_outcome(Origin::Root, endpoint).0 is Ok && endpoint.len() > 0
            && valid_utf8(endpoint) ==> endpoint_text(
            s.set_endpoint_outcome(Origin::Root, endpoint).1.http_endpoint,
        ) == decode_utf8(endpoint),
{
}

/// A response gives a price only with status 200 and a UTF-8 body, and then
/// exactly the price the body's text gives.
pub proof fn law_response_price(code: u16, body: Seq<u8>)
    ensures
        code != 200 ==> response_price(code, body) == Err::<u32, crate::http::HttpError>(
            crate::http::HttpError::Unknown,
        ),
        response_price(code, body) is Ok ==> code == 200 && valid_utf8(body)
            && crate::price::parsed_price(decode_utf8(body), body) == Some(
            response_price(code, body)->Ok_0,
        ),
{
}

} // verus!
