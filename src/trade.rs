//! Sizing and encoding the sell that answers a purchase.
use vstd::prelude::*;
use crate::abi::{
    addresses_view, amount_in_args, amount_in_schema, decode_spec, encode_amount_in_args,
    fits_encoding_size,
    lemma_amount_in_round_trip, AbiValueView,
};
use crate::address::Address;
use crate::config::TradeConfig;
use crate::word::{checked_add, checked_mul, div_mod, lemma_u256_bound, word_bound, U256};

verus! {

/// How long, in seconds past the current chain time, a sell stays valid.
pub const SELL_WINDOW: u64 = 300;

/// Selector of
/// `swapExactTokensForETHSupportingFeeOnTransferTokens(uint256,uint256,address[],address,uint256)`.
pub open spec fn sell_selector() -> Seq<u8> {
    seq![0x79u8, 0x1au8, 0xc9u8, 0x47u8]
}

/// `floor(buy * percent / 100)`, the amount to sell against a purchase of `buy`.
pub open spec fn sell_amount_spec(buy: nat, percent: nat) -> nat {
    buy * percent / 100
}

/// The amount to sell against a purchase: `floor(buy * percent / 100)`,
/// exact over the whole 256-bit range.
pub fn sell_amount(buy: U256, percent: u64) -> (r: U256)
    requires
        1 <= percent <= 100,
    ensures
        r@ == sell_amount_spec(buy@, percent as nat),
{
    let hundred = U256::from_u64(100);
    let p = U256::from_u64(percent);
    let (q, rem) = div_mod(buy, hundred);
    let ghost b = buy@;
    let ghost pp = percent as nat;
    proof {
        lemma_u256_bound(buy);
        vstd::arithmetic::div_mod::lemma_fundamental_div_mod(b as int, 100);
        assert(q@ * pp <= b) by (nonlinear_arith)
            requires
                b == 100 * q@ + rem@,
                pp <= 100,
        ;
        assert(rem@ * pp < 10000) by (nonlinear_arith)
            requires
                rem@ < 100,
                pp <= 100,
        ;
        assert(10000 < word_bound());
    }
    let qp = match checked_mul(q, p) {
        Some(x) => x,
        None => {
            assert(false);
            return U256::zero();
        },
    };
    let rp = match checked_mul(rem, p) {
        Some(x) => x,
        None => {
            assert(false);
            return U256::zero();
        },
    };
    let (t, _) = div_mod(rp, hundred);
    proof {
        assert(rp@ / 100 <= rp@);
        assert(b * pp == (rem@ * pp) + (q@ * pp) * 100) by (nonlinear_arith)
            requires
                b == 100 * q@ + rem@,
        ;
        vstd::arithmetic::div_mod::lemma_hoist_over_denominator(
            (rem@ * pp) as int,
            (q@ * pp) as int,
            100,
        );
        assert(b * pp <= b * 100) by (nonlinear_arith)
            requires
                pp <= 100,
        ;
        vstd::arithmetic::div_mod::lemma_div_is_ordered((b * pp) as int, (b * 100) as int, 100);
        vstd::arithmetic::div_mod::lemma_div_by_multiple(b as int, 100);
        assert(q@ * pp + t@ <= b) by (nonlinear_arith)
            requires
                b * pp == (rem@ * pp) + (q@ * pp) * 100,
                t@ == (b * pp) / 100 - q@ * pp,
                pp <= 100,
                b * pp / 100 <= b,
        ;
    }
    match checked_add(qp, t) {
        Some(s) => s,
        None => {
            assert(false);
            U256::zero()
        },
    }
}

/// The calldata of the router's fee-tolerant sell of tokens for native
/// currency: its selector, then the arguments in the ABI layout. The path may
/// hold at most 134,217,721 addresses, the most whose encoding the ABI encoder
/// can size.
pub fn encode_sell_call(
    amount_in: U256,
    amount_out_min: U256,
    path: &Vec<Address>,
    to: Address,
    deadline: U256,
) -> (r: Vec<u8>)
    requires
        fits_encoding_size(path@.len()),
    ensures
        r@ == sell_selector() + amount_in_args(
            amount_in@,
            amount_out_min@,
            addresses_view(path@),
            to@,
            deadline@,
        ),
{
    let args = encode_amount_in_args(amount_in, amount_out_min, path, to, deadline);
    let mut out: Vec<u8> = vec![0x79, 0x1a, 0xc9, 0x47];
    let mut i: usize = 0;
    while i < args.len()
        invariant
            i <= args@.len(),
            out@ =~= sell_selector() + args@.subrange(0, i as int),
        decreases args@.len() - i,
    {
        out.push(args[i]);
        i = i + 1;
    }
    assert(args@.subrange(0, args@.len() as int) =~= args@);
    out
}

/// A sell call, encoded and then decoded against its own schema, gives back
/// its selector and every field it was made from: amount, minimum output,
/// path, recipient and deadline.
pub proof fn lemma_sell_call_round_trip(
    amount_in: nat,
    amount_out_min: nat,
    path: Seq<Seq<u8>>,
    to: Seq<u8>,
    deadline: nat,
)
    requires
        amount_in < word_bound(),
        amount_out_min < word_bound(),
        deadline < word_bound(),
        path.len() < word_bound(),
        to.len() == 20,
        forall|k: int| 0 <= k < path.len() ==> (#[trigger] path[k]).len() == 20,
    ensures
        ({
            let call = sell_selector() + amount_in_args(
                amount_in,
                amount_out_min,
                path,
                to,
                deadline,
            );
            &&& call.subrange(0, 4) == sell_selector()
            &&& decode_spec(amount_in_schema(), call.skip(4)) == Some(
                seq![
                    AbiValueView::Uint(amount_in),
                    AbiValueView::Uint(amount_out_min),
                    AbiValueView::AddressArray(path),
                    AbiValueView::Address(to),
                    AbiValueView::Uint(deadline),
                ],
            )
        }),
{
    let args = amount_in_args(amount_in, amount_out_min, path, to, deadline);
    let call = sell_selector() + args;
    assert(call.subrange(0, 4) =~= sell_selector());
    assert(call.skip(4) =~= args);
    lemma_amount_in_round_trip(amount_in, amount_out_min, path, to, deadline);
}

/// A sell ready to be signed and sent to the router.
#[derive(Clone, Debug)]
pub struct SellOrder {
    /// The amount of the tracked token to sell.
    pub amount: U256,
    /// The router call.
    pub calldata: Vec<u8>,
}

/// The calldata of a sell of `amount` made for `account` at chain time
/// `chain_time`: no minimum output, path token then settlement, valid for
/// `SELL_WINDOW` seconds.
pub open spec fn sell_calldata(config: TradeConfig, amount: nat, account: Seq<u8>, chain_time: nat) -> Seq<u8> {
    sell_selector() + amount_in_args(
        amount,
        0,
        seq![config.token@, config.settlement@],
        account,
        (chain_time + SELL_WINDOW) as nat,
    )
}

/// The sell that answers a purchase of `buy`: `sell_percent` percent of it,
/// sent back through the router to native currency for `account`. There is no
/// floor on what the sell yields: it accepts any price.
pub fn build_sell(buy: U256, config: &TradeConfig, account: Address, chain_time: u64) -> (r: SellOrder)
    requires
        config.wf(),
    ensures
        r.amount@ == sell_amount_spec(buy@, config.sell_percent as nat),
        r.calldata@ == sell_calldata(*config, r.amount@, account@, chain_time as nat),
{
    let amount = sell_amount(buy, config.sell_percent);
    let path = vec![config.token, config.settlement];
    assert(addresses_view(path@) =~= seq![config.token@, config.settlement@]);
    let now = U256::from_u64(chain_time);
    let window = U256::from_u64(SELL_WINDOW);
    proof {
        assert(chain_time + SELL_WINDOW < word_bound());
    }
    let deadline = match checked_add(now, window) {
        Some(d) => d,
        None => {
            assert(false);
            U256::zero()
        },
    };
    let calldata = encode_sell_call(amount, U256::zero(), &path, account, deadline);
    SellOrder { amount, calldata }
}

} // verus!
