//! Recognising, from a pending transaction, a purchase of the tracked token
//! through the router, and what that purchase spends.
use vstd::prelude::*;
use crate::abi::{
    addresses_view, amount_in_params, amount_in_schema, decode_params, decode_spec, fits,
    native_in_params, native_in_schema, AbiValue, AbiValueView, ParamKind,
};
use crate::address::Address;
use crate::config::TradeConfig;
use crate::word::U256;

verus! {

/// A transaction seen among those awaiting confirmation.
#[derive(Clone, Debug)]
pub struct CandidateTransaction {
    /// The destination; `None` for a contract creation.
    pub to: Option<Address>,
    /// The calldata.
    pub input: Vec<u8>,
    /// The native currency attached.
    pub value: U256,
    pub from: Address,
    pub hash: [u8; 32],
}

/// A recognised router swap.
#[derive(Clone, Debug)]
pub enum DecodedSwap {
    /// `swapExactETHForTokens`: spends the attached native currency.
    NativeForTokens { amount_out_min: U256, path: Vec<Address>, to: Address, deadline: U256 },
    /// `swapExactTokensForTokens`: spends `amount_in` of the path's first token.
    TokensForTokens {
        amount_in: U256,
        amount_out_min: U256,
        path: Vec<Address>,
        to: Address,
        deadline: U256,
    },
}

pub enum DecodedSwapView {
    NativeForTokens { amount_out_min: nat, path: Seq<Seq<u8>>, to: Seq<u8>, deadline: nat },
    TokensForTokens {
        amount_in: nat,
        amount_out_min: nat,
        path: Seq<Seq<u8>>,
        to: Seq<u8>,
        deadline: nat,
    },
}

impl View for DecodedSwap {
    type V = DecodedSwapView;

    open spec fn view(&self) -> DecodedSwapView {
        match self {
            DecodedSwap::NativeForTokens { amount_out_min, path, to, deadline } =>
                DecodedSwapView::NativeForTokens {
                    amount_out_min: amount_out_min@,
                    path: addresses_view(path@),
                    to: to@,
                    deadline: deadline@,
                },
            DecodedSwap::TokensForTokens { amount_in, amount_out_min, path, to, deadline } =>
                DecodedSwapView::TokensForTokens {
                    amount_in: amount_in@,
                    amount_out_min: amount_out_min@,
                    path: addresses_view(path@),
                    to: to@,
                    deadline: deadline@,
                },
        }
    }
}

/// Selector of `swapExactETHForTokens(uint256,address[],address,uint256)`.
pub open spec fn native_in_selector() -> Seq<u8> {
    seq![0x7fu8, 0xf3u8, 0x6au8, 0xb5u8]
}

/// Selector of `swapExactTokensForTokens(uint256,uint256,address[],address,uint256)`.
pub open spec fn amount_in_selector() -> Seq<u8> {
    seq![0x38u8, 0xedu8, 0x17u8, 0x39u8]
}

pub open spec fn uint_of(v: AbiValueView) -> nat {
    match v {
        AbiValueView::Uint(n) => n,
        _ => 0,
    }
}

pub open spec fn address_of(v: AbiValueView) -> Seq<u8> {
    match v {
        AbiValueView::Address(a) => a,
        _ => Seq::empty(),
    }
}

pub open spec fn path_of(v: AbiValueView) -> Seq<Seq<u8>> {
    match v {
        AbiValueView::AddressArray(p) => p,
        _ => Seq::empty(),
    }
}

/// The path ends in the tracked token.
pub open spec fn buys_token(path: Seq<Seq<u8>>, token: Seq<u8>) -> bool {
    path.len() > 0 && path.last() == token
}

/// The parameter schema that a calldata's selector calls for.
pub open spec fn schema_for(input: Seq<u8>) -> Seq<ParamKind> {
    if input.subrange(0, 4) == native_in_selector() {
        native_in_schema()
    } else {
        amount_in_schema()
    }
}

/// The swap that a transaction makes and the amount it buys with, where it is
/// a purchase of the tracked token through the router.
pub open spec fn classify_spec(tx: CandidateTransaction, config: TradeConfig) -> Option<
    (DecodedSwapView, nat),
> {
    let input = tx.input@;
    let args = input.skip(4);
    if !(tx.to matches Some(a) && a@ == config.router@) || input.len() < 4 {
        None
    } else if input.subrange(0, 4) == native_in_selector() {
        match decode_spec(native_in_schema(), args) {
            Some(v) => if buys_token(path_of(v[1]), config.token@) {
                Some(
                    (
                        DecodedSwapView::NativeForTokens {
                            amount_out_min: uint_of(v[0]),
                            path: path_of(v[1]),
                            to: address_of(v[2]),
                            deadline: uint_of(v[3]),
                        },
                        tx.value@,
                    ),
                )
            } else {
                None
            },
            None => None,
        }
    } else if input.subrange(0, 4) == amount_in_selector() {
        match decode_spec(amount_in_schema(), args) {
            Some(v) => if buys_token(path_of(v[2]), config.token@) {
                Some(
                    (
                        DecodedSwapView::TokensForTokens {
                            amount_in: uint_of(v[0]),
                            amount_out_min: uint_of(v[1]),
                            path: path_of(v[2]),
                            to: address_of(v[3]),
                            deadline: uint_of(v[4]),
                        },
                        uint_of(v[0]),
                    ),
                )
            } else {
                None
            },
            None => None,
        }
    } else {
        None
    }
}

pub open spec fn classified_view(r: Option<(DecodedSwap, U256)>) -> Option<(DecodedSwapView, nat)> {
    match r {
        Some((s, a)) => Some((s@, a@)),
        None => None,
    }
}

/// Calldata shorter than the structure that its selector calls for (a head
/// word missing, or an array cut short) is never classified as a purchase.
pub proof fn lemma_truncated_calldata_no_match(tx: CandidateTransaction, config: TradeConfig)
    requires
        tx.input@.len() < 4 || !fits(schema_for(tx.input@), tx.input@.skip(4)),
    ensures
        classify_spec(tx, config) is None,
{
    if tx.input@.len() >= 4 {
        crate::abi::lemma_short_args_do_not_decode(schema_for(tx.input@), tx.input@.skip(4));
    }
}

/// Whether `input` starts with the four bytes given.
fn has_selector(input: &Vec<u8>, s0: u8, s1: u8, s2: u8, s3: u8) -> (r: bool)
    ensures
        r == (input@.len() >= 4 && input@.subrange(0, 4) == seq![s0, s1, s2, s3]),
{
    if input.len() < 4 {
        return false;
    }
    let r = input[0] == s0 && input[1] == s1 && input[2] == s2 && input[3] == s3;
    proof {
        if r {
            assert(input@.subrange(0, 4) =~= seq![s0, s1, s2, s3]);
        } else if input@.subrange(0, 4) == seq![s0, s1, s2, s3] {
            assert(input@.subrange(0, 4)[0] == s0);
            assert(input@.subrange(0, 4)[1] == s1);
            assert(input@.subrange(0, 4)[2] == s2);
            assert(input@.subrange(0, 4)[3] == s3);
        }
    }
    r
}

/// The last address of a path, where it is the token.
fn ends_in(path: &Vec<Address>, token: &Address) -> (r: bool)
    ensures
        r == buys_token(addresses_view(path@), token@),
{
    if path.len() == 0 {
        return false;
    }
    path[path.len() - 1].same_as(token)
}

/// Classifies a pending transaction: a purchase of the tracked token through
/// the router, with the amount it spends (the attached value for a swap from
/// native currency, the declared input amount for a token-for-token swap), or
/// `None`. Malformed or truncated calldata gives `None`.
pub fn classify(tx: &CandidateTransaction, config: &TradeConfig) -> (r: Option<
    (DecodedSwap, U256),
>)
    ensures
        classified_view(r) == classify_spec(*tx, *config),
{
    match &tx.to {
        Some(a) => {
            if !a.same_as(&config.router) {
                return None;
            }
        },
        None => return None,
    }
    let native = has_selector(&tx.input, 0x7f, 0xf3, 0x6a, 0xb5);
    let amount = has_selector(&tx.input, 0x38, 0xed, 0x17, 0x39);
    assert(seq![0x7fu8, 0xf3u8, 0x6au8, 0xb5u8] =~= native_in_selector());
    assert(seq![0x38u8, 0xedu8, 0x17u8, 0x39u8] =~= amount_in_selector());
    if !native && !amount {
        return None;
    }
    let args = vstd::slice::slice_subrange(tx.input.as_slice(), 4, tx.input.len());
    assert(args@ =~= tx.input@.skip(4));
    if native {
        let kinds = native_in_params();
        let mut vals = match decode_params(kinds.as_slice(), args) {
            Some(v) => v,
            None => return None,
        };
        let ghost all = vals@;
        proof {
            let v = decode_spec(native_in_schema(), tx.input@.skip(4))->0;
            assert(v == crate::abi::values_view(all));
            assert(v.len() == 4);
            assert(all.len() == 4);
            assert forall|i: int| 0 <= i < 4 implies #[trigger] v[i] == all[i]@ by {
                assert(crate::abi::values_view(all)[i] == all[i]@);
            }
            assert(all[0] is Uint && all[1] is AddressArray && all[2] is Address && all[3] is Uint);
        }
        let deadline = vals.pop();
        let to = vals.pop();
        let path = vals.pop();
        let min = vals.pop();
        match (min, path, to, deadline) {
            (
                Some(AbiValue::Uint(amount_out_min)),
                Some(AbiValue::AddressArray(path)),
                Some(AbiValue::Address(to)),
                Some(AbiValue::Uint(deadline)),
            ) => {
                if !ends_in(&path, &config.token) {
                    return None;
                }
                Some((DecodedSwap::NativeForTokens { amount_out_min, path, to, deadline }, tx.value))
            },
            _ => {
                assert(false);
                None
            },
        }
    } else {
        let kinds = amount_in_params();
        let mut vals = match decode_params(kinds.as_slice(), args) {
            Some(v) => v,
            None => return None,
        };
        let ghost all = vals@;
        proof {
            let v = decode_spec(amount_in_schema(), tx.input@.skip(4))->0;
            assert(v == crate::abi::values_view(all));
            assert(v.len() == 5);
            assert(all.len() == 5);
            assert forall|i: int| 0 <= i < 5 implies #[trigger] v[i] == all[i]@ by {
                assert(crate::abi::values_view(all)[i] == all[i]@);
            }
            assert(all[0] is Uint && all[1] is Uint && all[2] is AddressArray && all[3] is Address
                && all[4] is Uint);
        }
        let deadline = vals.pop();
        let to = vals.pop();
        let path = vals.pop();
        let min = vals.pop();
        let amount_in = vals.pop();
        match (amount_in, min, path, to, deadline) {
            (
                Some(AbiValue::Uint(amount_in)),
                Some(AbiValue::Uint(amount_out_min)),
                Some(AbiValue::AddressArray(path)),
                Some(AbiValue::Address(to)),
                Some(AbiValue::Uint(deadline)),
            ) => {
                if !ends_in(&path, &config.token) {
                    return None;
                }
                Some(
                    (
                        DecodedSwap::TokensForTokens { amount_in, amount_out_min, path, to, deadline },
                        amount_in,
                    ),
                )
            },
            _ => {
                assert(false);
                None
            },
        }
    }
}

} // verus!
