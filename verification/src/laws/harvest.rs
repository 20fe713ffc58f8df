//! Laws of harvesting.

use crate::constants::SCALAR_12;
use crate::error::StrategyError;
use crate::fixed_point::fits;
use crate::laws::equity::law_value_fits;
use crate::laws::exchange::answers_any;
use crate::leverage::equity::shares_value;
use crate::strategy::harvest::{
    be_value, bytes_of, law_harvest_keeps_terms, law_min_out_fits, min_out, HarvestState,
};
use crate::strategy::requests::{Reply, Request};
use crate::types::{Address, LeverageReserves};
use vstd::arithmetic::div_mod::lemma_div_denominator;
use vstd::arithmetic::power::{lemma_pow0, lemma_pow_positive, pow};
use vstd::prelude::*;

verus! {

/// Whether sixteen bytes are the big-endian two's complement of `x`: the byte at `i` is the
/// digit of `256` to the power of `15 - i`, where a negative number stands for the one that is
/// greater by two to the power of 128.
pub open spec fn is_encoding(bytes: Seq<u8>, x: int) -> bool {
    let bits = if x >= 0 {
        x
    } else {
        x + u128::MAX + 1
    };
    &&& i128::MIN <= x <= i128::MAX
    &&& bytes.len() == 16
    &&& forall|i: int|
        0 <= i < 16 ==> #[trigger] bytes[i] == (bits / pow(256, (15 - i) as nat)) % 256
}

/// Sixteen digits write what 128 bits hold.
proof fn lemma_sixteen_digits()
    ensures
        pow(256, 16) == u128::MAX + 1,
{
    reveal_with_fuel(pow, 17);
}

/// A number over a power of the base, over the base.
proof fn lemma_next_power(bits: int, n: nat)
    requires
        bits >= 0,
    ensures
        pow(256, n) > 0,
        bits / pow(256, n) >= 0,
        (bits / pow(256, n)) / 256 == bits / pow(256, n + 1),
{
    reveal(pow);
    lemma_pow_positive(256, n);
    let p = pow(256, n);
    assert(pow(256, n + 1) == 256 * p);
    assert(p * 256 == 256 * p);
    lemma_div_denominator(bits, p, 256);
    assert(bits / p >= 0) by (nonlinear_arith)
        requires
            bits >= 0,
            p > 0,
    ;
}

/// The first `k` digits of a number that has sixteen write it without the others.
proof fn lemma_digits_write(bytes: Seq<u8>, bits: int, k: nat)
    requires
        0 <= bits <= u128::MAX,
        bytes.len() == 16,
        k <= 16,
        forall|i: int|
            0 <= i < 16 ==> #[trigger] bytes[i] == (bits / pow(256, (15 - i) as nat)) % 256,
    ensures
        be_value(bytes.take(k as int)) == bits / pow(256, (16 - k) as nat),
    decreases k,
{
    if k == 0 {
        lemma_sixteen_digits();
        assert(be_value(bytes.take(0)) == 0);
        assert(bits / (u128::MAX + 1) == 0);
    } else {
        let j = (k - 1) as nat;
        lemma_digits_write(bytes, bits, j);
        lemma_next_power(bits, (16 - k) as nat);
        assert(bytes.take(k as int).drop_last() =~= bytes.take(j as int));
        assert(bytes[j as int] == (bits / pow(256, (15 - j) as nat)) % 256);
    }
}

/// What bytes write, over a power of the base, is what they write without the last ones.
proof fn lemma_digits_drop(bytes: Seq<u8>, n: nat)
    requires
        n <= bytes.len(),
    ensures
        0 <= be_value(bytes),
        be_value(bytes) / pow(256, n) == be_value(bytes.take(bytes.len() - n)),
    decreases n,
{
    lemma_written_is_not_negative(bytes);
    if n == 0 {
        lemma_pow0(256);
        assert(bytes.take(bytes.len() as int) =~= bytes);
    } else {
        let m = (n - 1) as nat;
        lemma_digits_drop(bytes, m);
        lemma_next_power(be_value(bytes), m);
        let longer = bytes.take(bytes.len() - m);
        assert(longer.drop_last() =~= bytes.take(bytes.len() - n));
    }
}

/// Bytes write no negative number.
proof fn lemma_written_is_not_negative(bytes: Seq<u8>)
    ensures
        0 <= be_value(bytes),
    decreases bytes.len(),
{
    if bytes.len() > 0 {
        lemma_written_is_not_negative(bytes.drop_last());
    }
}

/// The least swap output that data ask for is the number of which they are the big-endian
/// two's complement, and no other. None is asked for where there are no data, or empty ones.
pub proof fn law_data_are_decoded(bytes: Vec<u8>, x: int)
    ensures
        bytes@.len() == 16 ==> (min_out(bytes_of(Some(bytes))) == x <==> is_encoding(bytes@, x)),
        bytes@.len() == 0 ==> min_out(bytes_of(Some(bytes))) == 0,
        min_out(bytes_of(None)) == 0,
{
    let data = bytes@;
    if data.len() == 16 {
        law_min_out_fits(Some(data));
        assert(data.take(16) =~= data);
        if is_encoding(data, x) {
            let bits = if x >= 0 {
                x
            } else {
                x + u128::MAX + 1
            };
            lemma_digits_write(data, bits, 16);
            lemma_pow0(256);
        }
        if min_out(Some(data)) == x {
            let bits = be_value(data);
            assert forall|i: int| 0 <= i < 16 implies #[trigger] data[i] == (bits / pow(
                256,
                (15 - i) as nat,
            )) % 256 by {
                lemma_digits_drop(data, (15 - i) as nat);
                assert(data.take(i + 1).drop_last() =~= data.take(i));
                assert(data.take(i + 1).last() == data[i]);
            }
            lemma_digits_drop(data, 16);
            lemma_sixteen_digits();
            assert(bits <= u128::MAX) by {
                assert(be_value(data.take(0)) == 0);
                assert(bits / (u128::MAX + 1) == 0);
            }
            assert(is_encoding(data, x));
        }
    }
}

/// Whether data ask for at least `x`: they are its encoding, or it is zero and there are none.
pub open spec fn asks_for(data: Option<Vec<u8>>, x: int) -> bool {
    match data {
        None => x == 0,
        Some(bytes) => if bytes@.len() == 0 {
            x == 0
        } else {
            is_encoding(bytes@, x)
        },
    }
}

/// Data that ask for something ask for what is read from them.
proof fn lemma_asked_for_is_read(data: Option<Vec<u8>>, x: int)
    requires
        asks_for(data, x),
    ensures
        fits(x),
        min_out(bytes_of(data)) == x,
{
    if data is Some {
        law_data_are_decoded(data->0, x);
    }
}

/// A harvest that has come to reinvesting asks that the swap give at least what its data ask
/// for, whatever was replied to it; and it comes to that with the request to reinvest alone.
pub proof fn law_harvest_swaps_for_what_is_asked(
    from: Address,
    data: Option<Vec<u8>>,
    x: int,
    replies: Seq<Reply>,
)
    requires
        asks_for(data, x),
    ensures
        ({
            let state = (HarvestState::Identifying { from, data }).run(replies);
            let asked = state.awaits();
            &&& state is Reinvesting <==> asked is Some && asked->0 is Reinvest
            &&& asked is Some && asked->0 is Reinvest ==> asked->0->amount_out_min == x
        }),
{
    law_harvest_keeps_terms(from, data, replies);
    lemma_asked_for_is_read(data, x);
}

/// The course of a harvest: the keeper is read and authorizes it, and a caller who is someone
/// else is refused. The emissions are claimed, and swapped for at least what the data ask for.
/// What that added is recorded and the harvest published, with what was claimed, the keeper
/// and the worth of one share in twelve decimals. It is over at once where nothing was added
/// to the supply, and with the error of whatever fails.
pub proof fn law_course_of_a_harvest(
    from: Address,
    keeper: Address,
    data: Option<Vec<u8>>,
    x: int,
    claimed: i128,
    b_delta: i128,
    d_delta: i128,
    updated: LeverageReserves,
    e: StrategyError,
)
    requires
        asks_for(data, x),
    ensures
        ({
            let start = HarvestState::Identifying { from, data };
            let read = start.next(Reply::Keeper(keeper));
            let authorized = read.next(Reply::Done);
            let harvested = authorized.next(Reply::Claimed(claimed));
            let levered = harvested.next(Reply::Tokens(Ok((b_delta, d_delta))));
            let recorded = levered.next(Reply::Recorded(Ok(updated)));
            let price = shares_value(1_000_000_000_000, updated);
            &&& start.awaits() == Some(Request::ReadKeeper)
            &&& read.awaits() == Some(Request::Authorize(keeper))
            &&& from != keeper ==> authorized == HarvestState::Finished(
                Err(StrategyError::NotAuthorized),
            )
            &&& from == keeper ==> {
                &&& authorized.awaits() == Some(Request::Claim)
                &&& harvested.awaits() == Some(Request::Reinvest { amount_out_min: x as i128 })
                &&& harvested.next(Reply::Tokens(Err(e))) == HarvestState::Finished(Err(e))
                &&& b_delta <= 0 ==> levered == HarvestState::Finished(Ok(()))
                &&& b_delta > 0 ==> {
                    &&& levered.awaits() == Some(Request::RecordHarvest { b_delta, d_delta })
                    &&& levered.next(Reply::Recorded(Err(e))) == HarvestState::Finished(Err(e))
                    &&& price is Err ==> recorded == HarvestState::Finished(Err(price->Err_0))
                    &&& price is Ok ==> {
                        &&& recorded.awaits() is Some
                        &&& recorded.awaits()->0 is AnnounceHarvest
                        &&& recorded.awaits()->0->AnnounceHarvest_amount == claimed
                        &&& recorded.awaits()->0->keeper == keeper
                        &&& recorded.awaits()->0->price_per_share == price->Ok_0
                        &&& recorded.next(Reply::Done) == HarvestState::Finished(Ok(()))
                    }
                }
            }
        }),
{
    lemma_asked_for_is_read(data, x);
    law_value_fits(SCALAR_12 as int, updated);
}

/// A reply to something else than what the harvest waits for changes nothing, and a harvest
/// that is over waits for nothing.
pub proof fn law_harvest_ignores_other_replies(state: HarvestState, reply: Reply)
    ensures
        !answers_any(state.awaits(), reply) ==> state.next(reply) == state,
        state.awaits() is None <==> state is Finished,
{
}

/// Whether the pool was asked, at `i`, to reinvest and reported what that added.
pub open spec fn reinvested_at(
    start: HarvestState,
    b_delta: i128,
    d_delta: i128,
    replies: Seq<Reply>,
    i: int,
) -> bool {
    &&& 0 <= i < replies.len()
    &&& start.run(replies.take(i)).awaits() is Some
    &&& start.run(replies.take(i)).awaits()->0 is Reinvest
    &&& replies[i] == Reply::Tokens(Ok((b_delta, d_delta)))
}

/// What is recorded is what the pool reported that reinvesting added, and that is something.
pub proof fn law_harvest_records_what_was_added(
    from: Address,
    data: Option<Vec<u8>>,
    b_delta: i128,
    d_delta: i128,
    replies: Seq<Reply>,
)
    requires
        (HarvestState::Identifying { from, data }).run(replies).awaits() == Some(
            Request::RecordHarvest { b_delta, d_delta },
        ),
    ensures
        b_delta > 0,
        exists|i: int|
            reinvested_at(HarvestState::Identifying { from, data }, b_delta, d_delta, replies, i),
    decreases replies.len(),
{
    let start = HarvestState::Identifying { from, data };
    assert(replies.len() > 0);
    let before = replies.drop_last();
    let last = replies.len() - 1;
    law_harvest_keeps_terms(from, data, replies);
    if start.run(before) is Recording {
        law_harvest_records_what_was_added(from, data, b_delta, d_delta, before);
        let i = choose|i: int| reinvested_at(start, b_delta, d_delta, before, i);
        assert(replies.take(i) =~= before.take(i));
        assert(reinvested_at(start, b_delta, d_delta, replies, i));
    } else {
        assert(replies.take(last) =~= before);
        assert(reinvested_at(start, b_delta, d_delta, replies, last));
    }
}

} // verus!
