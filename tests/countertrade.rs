use countertrade::abi::{amount_in_params, decode_params, native_in_params, AbiValue, ParamKind};
use countertrade::address::Address;
use countertrade::config::{ConfigError, TradeConfig};
use countertrade::controller::{Controller, Phase};
use countertrade::decoder::{classify, CandidateTransaction, DecodedSwap};
use countertrade::trade::{build_sell, encode_sell_call, sell_amount, SELL_WINDOW};
use countertrade::volume::{VolumeError, VolumeTracker};
use countertrade::word::U256;

const ROUTER: &str = "0x7a250d5630B4cF539739dF2C5dAcb4c659F2488D";
const WETH: &str = "0xC02aaA39b223FE8D0A0e5C4F27eAD9083C756Cc2";
const TOKEN: &str = "0x1f9840a85d5aF5bf1D1762F925BDADdC4201F984";

fn amount(x: u128) -> U256 {
    U256 { limbs: [x as u64, (x >> 64) as u64, 0, 0] }
}

fn value_of(x: U256) -> u128 {
    assert_eq!(x.limbs[2], 0);
    assert_eq!(x.limbs[3], 0);
    (x.limbs[0] as u128) | ((x.limbs[1] as u128) << 64)
}

fn addr(b: u8) -> Address {
    Address { bytes: [b; 20] }
}

fn config(percent: u64, target: u128, deadline: u64) -> TradeConfig {
    TradeConfig::new(TOKEN, ROUTER, WETH, percent, amount(target), deadline).unwrap()
}

fn uint_word(x: u128) -> Vec<u8> {
    let mut w = vec![0u8; 16];
    w.extend_from_slice(&x.to_be_bytes());
    w
}

fn address_word(a: &Address) -> Vec<u8> {
    let mut w = vec![0u8; 12];
    w.extend_from_slice(&a.bytes);
    w
}

/// Calldata of `swapExactETHForTokens(amountOutMin, path, to, deadline)`.
fn native_buy(path: &[Address]) -> Vec<u8> {
    let mut d = vec![0x7f, 0xf3, 0x6a, 0xb5];
    d.extend(uint_word(5));
    d.extend(uint_word(128));
    d.extend(address_word(&addr(9)));
    d.extend(uint_word(1_700_000_000));
    d.extend(uint_word(path.len() as u128));
    for a in path {
        d.extend(address_word(a));
    }
    d
}

/// Calldata of `swapExactTokensForTokens(amountIn, amountOutMin, path, to, deadline)`.
fn token_buy(amount_in: u128, path: &[Address]) -> Vec<u8> {
    let mut d = vec![0x38, 0xed, 0x17, 0x39];
    d.extend(uint_word(amount_in));
    d.extend(uint_word(7));
    d.extend(uint_word(160));
    d.extend(address_word(&addr(9)));
    d.extend(uint_word(1_700_000_000));
    d.extend(uint_word(path.len() as u128));
    for a in path {
        d.extend(address_word(a));
    }
    d
}

fn candidate(cfg: &TradeConfig, input: Vec<u8>, value: u128) -> CandidateTransaction {
    CandidateTransaction { to: Some(cfg.router), input, value: amount(value), from: addr(3), hash: [0; 32] }
}

#[test]
fn sell_of_ten_percent_of_thousand_is_hundred() {
    assert_eq!(value_of(sell_amount(amount(1000), 10)), 100);
}

#[test]
fn sell_amount_rounds_down() {
    assert_eq!(value_of(sell_amount(amount(999), 10)), 99);
    assert_eq!(value_of(sell_amount(amount(1), 99)), 0);
    assert_eq!(value_of(sell_amount(amount(0), 100)), 0);
    assert_eq!(value_of(sell_amount(amount(12345), 100)), 12345);
}

#[test]
fn sell_amount_is_exact_at_full_width() {
    let max = U256 { limbs: [u64::MAX; 4] };
    let all = sell_amount(max, 100);
    assert_eq!(all.limbs, [u64::MAX; 4]);
    // (2^256 - 1) * 50 / 100 = 2^255 - 1
    let half = sell_amount(max, 50);
    assert_eq!(half.limbs, [u64::MAX, u64::MAX, u64::MAX, u64::MAX >> 1]);
    // (2^256 - 1) * 99 / 100, as computed with exact integers
    let most = sell_amount(max, 99);
    let m = ethers::types::U256::MAX;
    let hundred = ethers::types::U256::from(100u64);
    let p = ethers::types::U256::from(99u64);
    let expected: ethers::types::U256 = m / hundred * p + (m % hundred) * p / hundred;
    assert_eq!(most.limbs, expected.0);
}

#[test]
fn three_buys_reach_target_on_the_third() {
    let mut tracker = VolumeTracker::new(amount(120));
    let mut seen = Vec::new();
    for _ in 0..3 {
        let sold = sell_amount(amount(100), 50);
        assert_eq!(value_of(sold), 50);
        let (total, reached) = tracker.add_and_check(sold).unwrap();
        seen.push((value_of(total), reached));
    }
    assert_eq!(seen, vec![(50, false), (100, false), (150, true)]);
    assert_eq!(value_of(tracker.total()), 150);
}

#[test]
fn total_is_sum_of_added_amounts() {
    let mut tracker = VolumeTracker::new(amount(1_000_000));
    let mut last = 0u128;
    for x in [3u128, 0, 17, 250, 1] {
        let (total, _) = tracker.add_and_check(amount(x)).unwrap();
        assert!(value_of(total) >= last);
        last = value_of(total);
    }
    assert_eq!(last, 271);
}

#[test]
fn overflowing_addition_is_refused_and_keeps_total() {
    let mut tracker = VolumeTracker::new(amount(10));
    tracker.add_and_check(U256 { limbs: [u64::MAX; 4] }).unwrap();
    assert!(matches!(tracker.add_and_check(amount(1)), Err(VolumeError::Overflow)));
    assert_eq!(tracker.total().limbs, [u64::MAX; 4]);
}

#[test]
fn expired_deadline_stops_before_any_candidate() {
    let cfg = config(10, 100, 0);
    let mut run = Controller::new(cfg, addr(1));
    assert!(!run.on_arrival(0));
    assert_eq!(run.phase, Phase::Expired);
    assert_eq!(value_of(run.total_sold()), 0);
    assert!(!run.on_arrival(0));
}

#[test]
fn arrival_before_deadline_goes_on() {
    let cfg = config(10, 100, 50);
    let mut run = Controller::new(cfg, addr(1));
    assert!(run.on_arrival(49));
    assert_eq!(run.phase, Phase::Monitoring);
    assert!(!run.on_arrival(50));
    assert_eq!(run.phase, Phase::Expired);
}

#[test]
fn stream_end_expires_the_run() {
    let mut run = Controller::new(config(10, 100, 50), addr(1));
    run.on_stream_end();
    assert_eq!(run.phase, Phase::Expired);
    assert!(!run.on_arrival(0));
}

#[test]
fn buy_with_other_final_token_is_no_match() {
    let cfg = config(10, 100, 50);
    let tx = candidate(&cfg, native_buy(&[cfg.settlement, addr(0xaa)]), 1000);
    assert!(classify(&tx, &cfg).is_none());
    let tx = candidate(&cfg, token_buy(500, &[cfg.token, cfg.settlement]), 0);
    assert!(classify(&tx, &cfg).is_none());
}

#[test]
fn native_buy_of_token_is_classified_with_attached_value() {
    let cfg = config(10, 100, 50);
    let tx = candidate(&cfg, native_buy(&[cfg.settlement, cfg.token]), 1000);
    match classify(&tx, &cfg) {
        Some((DecodedSwap::NativeForTokens { amount_out_min, path, to, deadline }, buy)) => {
            assert_eq!(value_of(buy), 1000);
            assert_eq!(value_of(amount_out_min), 5);
            assert_eq!(path.len(), 2);
            assert_eq!(path[1].bytes, cfg.token.bytes);
            assert_eq!(to.bytes, addr(9).bytes);
            assert_eq!(value_of(deadline), 1_700_000_000);
        }
        other => panic!("unexpected {:?}", other),
    }
}

#[test]
fn token_buy_of_token_is_classified_with_declared_input() {
    let cfg = config(10, 100, 50);
    let tx = candidate(&cfg, token_buy(4242, &[addr(0x55), cfg.settlement, cfg.token]), 0);
    match classify(&tx, &cfg) {
        Some((DecodedSwap::TokensForTokens { amount_in, amount_out_min, path, .. }, buy)) => {
            assert_eq!(value_of(buy), 4242);
            assert_eq!(value_of(amount_in), 4242);
            assert_eq!(value_of(amount_out_min), 7);
            assert_eq!(path.len(), 3);
        }
        other => panic!("unexpected {:?}", other),
    }
}

#[test]
fn other_destination_or_selector_is_no_match() {
    let cfg = config(10, 100, 50);
    let mut tx = candidate(&cfg, native_buy(&[cfg.settlement, cfg.token]), 1000);
    tx.to = Some(addr(0x77));
    assert!(classify(&tx, &cfg).is_none());
    tx.to = None;
    assert!(classify(&tx, &cfg).is_none());
    let mut input = native_buy(&[cfg.settlement, cfg.token]);
    input[0] = 0x00;
    assert!(classify(&candidate(&cfg, input, 1000), &cfg).is_none());
    assert!(classify(&candidate(&cfg, vec![0x7f, 0xf3], 1000), &cfg).is_none());
}

#[test]
fn truncated_calldata_is_no_match() {
    let cfg = config(10, 100, 50);
    let full = native_buy(&[cfg.settlement, cfg.token]);
    for cut in 0..full.len() {
        let tx = candidate(&cfg, full[..cut].to_vec(), 1000);
        assert!(classify(&tx, &cfg).is_none(), "cut at {}", cut);
    }
    let full = token_buy(10, &[cfg.settlement, cfg.token]);
    for cut in 0..full.len() {
        let tx = candidate(&cfg, full[..cut].to_vec(), 0);
        assert!(classify(&tx, &cfg).is_none(), "cut at {}", cut);
    }
}

#[test]
fn huge_array_offset_or_length_is_no_match() {
    let cfg = config(10, 100, 50);
    let mut input = native_buy(&[cfg.settlement, cfg.token]);
    input[4 + 32] = 0xff;
    assert!(classify(&candidate(&cfg, input, 1000), &cfg).is_none());
    let mut input = native_buy(&[cfg.settlement, cfg.token]);
    input[4 + 128 + 3] = 0x01;
    assert!(classify(&candidate(&cfg, input, 1000), &cfg).is_none());
}

#[test]
fn dirty_address_padding_is_no_match() {
    let cfg = config(10, 100, 50);
    let mut input = native_buy(&[cfg.settlement, cfg.token]);
    input[4 + 160 + 32] = 1;
    assert!(classify(&candidate(&cfg, input, 1000), &cfg).is_none());
}

#[test]
fn checksummed_and_lower_case_addresses_agree() {
    let mixed = TradeConfig::new(TOKEN, ROUTER, WETH, 10, amount(1), 0).unwrap();
    let lower = TradeConfig::new(
        &TOKEN.to_lowercase(),
        &ROUTER.to_lowercase(),
        &WETH.to_lowercase(),
        10,
        amount(1),
        0,
    )
    .unwrap();
    let upper = TradeConfig::new(&format!("0x{}", &TOKEN[2..].to_uppercase()), ROUTER, WETH, 10, amount(1), 0)
        .unwrap();
    assert_eq!(mixed.token.bytes, lower.token.bytes);
    assert_eq!(mixed.token.bytes, upper.token.bytes);
    assert_eq!(mixed.router.bytes, lower.router.bytes);
    assert_eq!(mixed.settlement.bytes, lower.settlement.bytes);
    assert!(mixed.token.same_as(&lower.token));
    assert_eq!(mixed.router.bytes[0], 0x7a);
    assert_eq!(mixed.router.bytes[19], 0x8d);
    let tx = candidate(&mixed, native_buy(&[mixed.settlement, lower.token]), 1);
    assert!(classify(&tx, &mixed).is_some());
}

#[test]
fn config_errors() {
    assert_eq!(
        TradeConfig::new(TOKEN, ROUTER, WETH, 0, amount(1), 0).unwrap_err(),
        ConfigError::InvalidSellFraction
    );
    assert_eq!(
        TradeConfig::new(TOKEN, ROUTER, WETH, 101, amount(1), 0).unwrap_err(),
        ConfigError::InvalidSellFraction
    );
    assert_eq!(
        TradeConfig::new("0xzz", ROUTER, WETH, 10, amount(1), 0).unwrap_err(),
        ConfigError::InvalidTokenAddress
    );
    assert_eq!(
        TradeConfig::new(TOKEN, "0x1234", WETH, 10, amount(1), 0).unwrap_err(),
        ConfigError::InvalidRouterAddress
    );
    assert_eq!(
        TradeConfig::new(TOKEN, ROUTER, "weth", 10, amount(1), 0).unwrap_err(),
        ConfigError::InvalidSettlementAddress
    );
}

#[test]
fn selectors_are_the_hashes_of_the_signatures() {
    assert_eq!(
        ethers::utils::id("swapExactETHForTokens(uint256,address[],address,uint256)"),
        [0x7f, 0xf3, 0x6a, 0xb5]
    );
    assert_eq!(
        ethers::utils::id("swapExactTokensForTokens(uint256,uint256,address[],address,uint256)"),
        [0x38, 0xed, 0x17, 0x39]
    );
    let call = encode_sell_call(amount(1), amount(0), &vec![addr(1)], addr(2), amount(3));
    assert_eq!(
        ethers::utils::id(
            "swapExactTokensForETHSupportingFeeOnTransferTokens(uint256,uint256,address[],address,uint256)"
        ),
        [call[0], call[1], call[2], call[3]]
    );
}

#[test]
fn sell_call_has_the_abi_layout() {
    let path = vec![addr(0x11), addr(0x22)];
    let call = encode_sell_call(amount(500), amount(0), &path, addr(0x33), amount(1_700_000_300));
    let mut expected = vec![0x79, 0x1a, 0xc9, 0x47];
    expected.extend(uint_word(500));
    expected.extend(uint_word(0));
    expected.extend(uint_word(160));
    expected.extend(address_word(&addr(0x33)));
    expected.extend(uint_word(1_700_000_300));
    expected.extend(uint_word(2));
    expected.extend(address_word(&addr(0x11)));
    expected.extend(address_word(&addr(0x22)));
    assert_eq!(call, expected);
}

#[test]
fn sell_call_round_trips_through_decoder() {
    let path = vec![addr(0x11), addr(0x22), addr(0x44)];
    let big = U256 { limbs: [1, 2, 3, 4] };
    let call = encode_sell_call(big, amount(9), &path, addr(0x33), amount(77));
    let vals = decode_params(&amount_in_params(), &call[4..]).unwrap();
    assert_eq!(vals.len(), 5);
    match (&vals[0], &vals[1], &vals[2], &vals[3], &vals[4]) {
        (
            AbiValue::Uint(a),
            AbiValue::Uint(m),
            AbiValue::AddressArray(p),
            AbiValue::Address(t),
            AbiValue::Uint(d),
        ) => {
            assert_eq!(a.limbs, [1, 2, 3, 4]);
            assert_eq!(value_of(*m), 9);
            let got: Vec<[u8; 20]> = p.iter().map(|x| x.bytes).collect();
            let want: Vec<[u8; 20]> = path.iter().map(|x| x.bytes).collect();
            assert_eq!(got, want);
            assert_eq!(t.bytes, addr(0x33).bytes);
            assert_eq!(value_of(*d), 77);
        }
        other => panic!("unexpected {:?}", other),
    }
}

#[test]
fn decoder_follows_schema() {
    assert_eq!(native_in_params(), vec![ParamKind::Uint, ParamKind::AddressArray, ParamKind::Address, ParamKind::Uint]);
    assert!(decode_params(&[ParamKind::Uint], &[0u8; 31]).is_none());
    let vals = decode_params(&[ParamKind::Uint], &uint_word(0x1234)).unwrap();
    match &vals[0] {
        AbiValue::Uint(x) => assert_eq!(value_of(*x), 0x1234),
        other => panic!("unexpected {:?}", other),
    }
    assert!(decode_params(&[], &[]).unwrap().is_empty());
}

#[test]
fn build_sell_sizes_and_encodes() {
    let cfg = config(50, 120, 50);
    let order = build_sell(amount(100), &cfg, addr(0x66), 1_000);
    assert_eq!(value_of(order.amount), 50);
    let expected = encode_sell_call(
        amount(50),
        amount(0),
        &vec![cfg.token, cfg.settlement],
        addr(0x66),
        amount(1_000 + SELL_WINDOW as u128),
    );
    assert_eq!(order.calldata, expected);
}

#[test]
fn run_of_three_buys_signals_target_on_third() {
    let cfg = config(50, 120, 1_000);
    let mut run = Controller::new(cfg, addr(0x66));
    let mut reached = Vec::new();
    for i in 0..3u64 {
        assert!(run.on_arrival(i));
        let tx = candidate(&cfg, token_buy(100, &[cfg.settlement, cfg.token]), 0);
        let order = run.on_transaction(Some(&tx), 10).unwrap();
        assert_eq!(value_of(order.amount), 50);
        let (_, hit) = run.on_sell_confirmed(order.amount).unwrap();
        reached.push(hit);
    }
    assert_eq!(reached, vec![false, false, true]);
    assert_eq!(value_of(run.total_sold()), 150);
    assert!(run.on_transaction(None, 10).is_none());
    let other = candidate(&cfg, native_buy(&[cfg.settlement, addr(5)]), 100);
    assert!(run.on_transaction(Some(&other), 10).is_none());
}

#[test]
fn address_text_may_hold_whitespace_but_not_upper_prefix() {
    let spaced = format!("0x{} {}", &TOKEN[2..22], &TOKEN[22..]);
    let a = TradeConfig::new(&spaced, ROUTER, WETH, 10, amount(1), 0).unwrap();
    let b = TradeConfig::new(TOKEN, ROUTER, WETH, 10, amount(1), 0).unwrap();
    assert_eq!(a.token.bytes, b.token.bytes);
    let bare = TradeConfig::new(&TOKEN[2..], ROUTER, WETH, 10, amount(1), 0).unwrap();
    assert_eq!(bare.token.bytes, b.token.bytes);
    let upper_x = format!("0X{}", &TOKEN[2..]);
    assert_eq!(
        TradeConfig::new(&upper_x, ROUTER, WETH, 10, amount(1), 0).unwrap_err(),
        ConfigError::InvalidTokenAddress
    );
    let short = &TOKEN[..41];
    assert_eq!(
        TradeConfig::new(short, ROUTER, WETH, 10, amount(1), 0).unwrap_err(),
        ConfigError::InvalidTokenAddress
    );
}

#[test]
fn target_reached_follows_total() {
    let cfg = config(100, 30, 1_000);
    let mut run = Controller::new(cfg, addr(1));
    assert!(!run.target_reached());
    run.on_sell_confirmed(amount(29)).unwrap();
    assert!(!run.target_reached());
    run.on_sell_confirmed(amount(1)).unwrap();
    assert!(run.target_reached());
}
