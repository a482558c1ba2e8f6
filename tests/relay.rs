use ethabi::ethereum_types::{H160, U256};
use ethabi::{ParamType, Token};
use juice_bot_relay::abi::Word;
use juice_bot_relay::msg::{
    BotInfo, ContractError, ExecuteMsg, InstantiateMsg, Metadata, PalomaMsg, State, SwapInfo,
};
use juice_bot_relay::relay::{
    create_next_bot, execute, get_job_id, instantiate, repay_bot, set_paloma, update_blueprint,
    update_compass, update_gas_fee, update_refund_wallet, update_service_fee,
    update_service_fee_collector,
};
use juice_bot_relay::retry::{RetryLedger, NANOS_PER_SECOND};

const OWNER: &str = "owner";
const DELAY: u64 = 60;

fn word(n: u64) -> Word {
    let mut w = [0u8; 32];
    w[24..].copy_from_slice(&n.to_be_bytes());
    w
}

fn addr(n: u8) -> String {
    format!("0x{}", format!("{:02x}", n).repeat(20))
}

fn h160(n: u8) -> H160 {
    H160([n; 20])
}

fn state() -> State {
    instantiate(
        OWNER.to_string(),
        InstantiateMsg {
            retry_delay: DELAY,
            job_id: "job-7".to_string(),
            creator: "creator".to_string(),
            signers: vec!["s1".to_string(), "s2".to_string()],
        },
    )
}

fn secs(s: u64) -> u64 {
    s * NANOS_PER_SECOND
}

fn swap_info(base: u8, route_len: usize) -> SwapInfo {
    SwapInfo {
        route: (0..route_len).map(|i| addr(base + i as u8)).collect(),
        swap_params: (0..5)
            .map(|r| (0..5).map(|c| word(100 * base as u64 + 10 * r + c)).collect())
            .collect(),
        amount: word(1000 + base as u64),
        expected: word(2000 + base as u64),
        pools: (0..5).map(|i| addr(base + 50 + i as u8)).collect(),
    }
}

fn bot(n: u8) -> BotInfo {
    BotInfo {
        bot: addr(n),
        callbacker: addr(n + 1),
        callback_args: vec![word(n as u64), word(7)],
        swap_infos: vec![swap_info(n, 11)],
    }
}

fn swap_kind() -> ParamType {
    ParamType::Tuple(vec![
        ParamType::FixedArray(Box::new(ParamType::Address), 11),
        ParamType::FixedArray(
            Box::new(ParamType::FixedArray(Box::new(ParamType::Uint(256)), 5)),
            5,
        ),
        ParamType::Uint(256),
        ParamType::Uint(256),
        ParamType::FixedArray(Box::new(ParamType::Address), 5),
    ])
}

fn repay_params() -> Vec<ParamType> {
    vec![
        ParamType::Array(Box::new(ParamType::Address)),
        ParamType::Array(Box::new(ParamType::Address)),
        ParamType::Array(Box::new(ParamType::Array(Box::new(ParamType::Uint(256))))),
        ParamType::Array(Box::new(ParamType::Array(Box::new(swap_kind())))),
    ]
}

fn create_params() -> Vec<ParamType> {
    vec![
        ParamType::Uint(256),
        ParamType::Address,
        ParamType::Array(Box::new(ParamType::Uint(256))),
        ParamType::Uint(256),
    ]
}

fn decode(name: &str, params: &[ParamType], payload: &[u8]) -> Vec<Token> {
    assert_eq!(payload[..4], ethabi::short_signature(name, params));
    ethabi::decode(params, &payload[4..]).expect("payload decodes")
}

fn uint(n: u64) -> Token {
    Token::Uint(U256::from(n))
}

fn swap_token(base: u8) -> Token {
    Token::Tuple(vec![
        Token::FixedArray((0..11).map(|i| Token::Address(h160(base + i))).collect()),
        Token::FixedArray(
            (0..5)
                .map(|r| {
                    Token::FixedArray(
                        (0..5).map(|c| uint(100 * base as u64 + 10 * r + c)).collect(),
                    )
                })
                .collect(),
        ),
        uint(1000 + base as u64),
        uint(2000 + base as u64),
        Token::FixedArray((0..5).map(|i| Token::Address(h160(base + 50 + i))).collect()),
    ])
}

fn array(t: &Token) -> &Vec<Token> {
    match t {
        Token::Array(ts) => ts,
        other => panic!("not an array: {:?}", other),
    }
}

fn check_metadata(msg: &PalomaMsg) {
    assert_eq!(msg.job_id, "job-7");
    assert_eq!(
        msg.metadata,
        Metadata { creator: "creator".to_string(), signers: vec!["s1".to_string(), "s2".to_string()] }
    );
}

#[test]
fn non_owner_is_refused_everywhere() {
    let stranger = "stranger".to_string();
    let mut ledger = RetryLedger::new();
    let r = create_next_bot(state(), &stranger, secs(1), &mut ledger, word(1), addr(1), vec![], word(2));
    assert_eq!(r, Err(ContractError::Unauthorized));
    let r = repay_bot(state(), &stranger, secs(1), &mut ledger, vec![bot(1)]);
    assert_eq!(r, Err(ContractError::Unauthorized));
    let r = repay_bot(state(), &stranger, secs(1), &mut ledger, vec![]);
    assert_eq!(r, Err(ContractError::Unauthorized));
    assert_eq!(set_paloma(state(), &stranger), Err(ContractError::Unauthorized));
    assert_eq!(update_compass(state(), &stranger, addr(3)), Err(ContractError::Unauthorized));
    assert_eq!(update_blueprint(state(), &stranger, addr(3)), Err(ContractError::Unauthorized));
    assert_eq!(update_refund_wallet(state(), &stranger, addr(3)), Err(ContractError::Unauthorized));
    assert_eq!(
        update_service_fee_collector(state(), &stranger, addr(3)),
        Err(ContractError::Unauthorized)
    );
    assert_eq!(update_gas_fee(state(), &stranger, word(5)), Err(ContractError::Unauthorized));
    assert_eq!(update_service_fee(state(), &stranger, word(5)), Err(ContractError::Unauthorized));
    let r = execute(state(), &stranger, secs(1), &mut ledger, ExecuteMsg::SetPaloma);
    assert_eq!(r, Err(ContractError::Unauthorized));
    assert!(ledger.entries().is_empty());
}

#[test]
fn retry_window_of_a_fresh_key() {
    let owner = OWNER.to_string();
    let mut ledger = RetryLedger::new();
    let r = create_next_bot(state(), &owner, 0, &mut ledger, word(9), addr(1), vec![word(4)], word(3));
    assert!(r.is_ok());
    let key = ("9".to_string(), "3".to_string());
    assert_eq!(ledger.last_attempt(&key.0, &key.1), Some(0));

    let r = create_next_bot(state(), &owner, secs(DELAY / 2), &mut ledger, word(9), addr(1), vec![word(4)], word(3));
    assert_eq!(r, Err(ContractError::AllPending));
    assert_eq!(ledger.last_attempt(&key.0, &key.1), Some(0));

    let r = create_next_bot(state(), &owner, secs(DELAY + 1), &mut ledger, word(9), addr(1), vec![word(4)], word(3));
    assert!(r.is_ok());
    assert_eq!(ledger.last_attempt(&key.0, &key.1), Some(secs(DELAY + 1)));
}

#[test]
fn retry_window_boundary_is_strict() {
    let mut ledger = RetryLedger::new();
    assert!(ledger.try_admit("k".to_string(), "t".to_string(), secs(5), DELAY));
    assert!(!ledger.try_admit("k".to_string(), "t".to_string(), secs(5 + DELAY), DELAY));
    assert!(ledger.try_admit("k".to_string(), "t".to_string(), secs(5 + DELAY) + 1, DELAY));
    assert_eq!(ledger.entries().len(), 1);
}

#[test]
fn create_key_uses_decimal_text() {
    let owner = OWNER.to_string();
    let mut ledger = RetryLedger::new();
    let mut big = [0u8; 32];
    big[30] = 1;
    big[31] = 2;
    let r = create_next_bot(state(), &owner, secs(1), &mut ledger, big, addr(1), vec![], word(0));
    assert!(r.is_ok());
    assert_eq!(ledger.entries()[0].id, "258");
    assert_eq!(ledger.entries()[0].tag, "0");
}

#[test]
fn create_next_bot_round_trip() {
    let owner = OWNER.to_string();
    let mut ledger = RetryLedger::new();
    let msg = create_next_bot(
        state(),
        &owner,
        secs(1),
        &mut ledger,
        word(42),
        addr(0xab),
        vec![word(1), word(2), word(3)],
        word(5),
    )
    .unwrap();
    check_metadata(&msg);
    let tokens = decode("create_next_bot", &create_params(), &msg.payload);
    assert_eq!(
        tokens,
        vec![
            uint(42),
            Token::Address(h160(0xab)),
            Token::Array(vec![uint(1), uint(2), uint(3)]),
            uint(5),
        ]
    );
}

#[test]
fn large_integers_keep_all_bytes() {
    let owner = OWNER.to_string();
    let mut ledger = RetryLedger::new();
    let mut w = [0u8; 32];
    for (i, b) in w.iter_mut().enumerate() {
        *b = i as u8 + 1;
    }
    let msg = create_next_bot(state(), &owner, secs(1), &mut ledger, w, addr(1), vec![w], word(1)).unwrap();
    let tokens = decode("create_next_bot", &create_params(), &msg.payload);
    assert_eq!(tokens[0], Token::Uint(U256::from_big_endian(&w)));
    assert_eq!(&msg.payload[4..36], &w[..]);
}

#[test]
fn create_next_bot_rejects_bad_callbacker() {
    let owner = OWNER.to_string();
    let mut ledger = RetryLedger::new();
    let r = create_next_bot(state(), &owner, secs(1), &mut ledger, word(1), "0x12zz".to_string(), vec![], word(2));
    assert_eq!(r, Err(ContractError::InvalidAddress));
    assert!(ledger.entries().is_empty());
}

#[test]
fn address_without_prefix_is_accepted() {
    let owner = OWNER.to_string();
    let text = "22".repeat(20);
    let msg = update_compass(state(), &owner, text).unwrap();
    let tokens = decode("update_compass", &[ParamType::Address], &msg.payload);
    assert_eq!(tokens, vec![Token::Address(h160(0x22))]);
}

#[test]
fn repay_batch_skips_gated_item_in_all_lists() {
    let owner = OWNER.to_string();
    let mut ledger = RetryLedger::new();
    ledger.record(addr(20), "repay".to_string(), secs(100));
    let items = vec![bot(10), bot(20), bot(30)];
    let msg = repay_bot(state(), &owner, secs(120), &mut ledger, items).unwrap();
    check_metadata(&msg);
    let tokens = decode("repay_bot", &repay_params(), &msg.payload);
    assert_eq!(tokens.len(), 4);
    for t in &tokens {
        assert_eq!(array(t).len(), 2);
    }
    assert_eq!(array(&tokens[0]), &vec![Token::Address(h160(10)), Token::Address(h160(30))]);
    assert_eq!(array(&tokens[1]), &vec![Token::Address(h160(11)), Token::Address(h160(31))]);
    assert_eq!(
        array(&tokens[2]),
        &vec![Token::Array(vec![uint(10), uint(7)]), Token::Array(vec![uint(30), uint(7)])]
    );
    assert_eq!(
        array(&tokens[3]),
        &vec![Token::Array(vec![swap_token(10)]), Token::Array(vec![swap_token(30)])]
    );
    assert_eq!(ledger.last_attempt(&addr(10), &"repay".to_string()), Some(secs(120)));
    assert_eq!(ledger.last_attempt(&addr(20), &"repay".to_string()), Some(secs(100)));
    assert_eq!(ledger.last_attempt(&addr(30), &"repay".to_string()), Some(secs(120)));
}

#[test]
fn repay_batch_with_repeated_bot_admits_it_once() {
    let owner = OWNER.to_string();
    let mut ledger = RetryLedger::new();
    let msg = repay_bot(state(), &owner, secs(1), &mut ledger, vec![bot(10), bot(10)]).unwrap();
    let tokens = decode("repay_bot", &repay_params(), &msg.payload);
    assert_eq!(array(&tokens[0]).len(), 1);
}

#[test]
fn repay_all_gated_is_all_pending() {
    let owner = OWNER.to_string();
    let mut ledger = RetryLedger::new();
    ledger.record(addr(10), "repay".to_string(), secs(100));
    let r = repay_bot(state(), &owner, secs(100 + DELAY), &mut ledger, vec![bot(10)]);
    assert_eq!(r, Err(ContractError::AllPending));
    assert_eq!(ledger.last_attempt(&addr(10), &"repay".to_string()), Some(secs(100)));
}

#[test]
fn short_route_is_rejected_without_recording() {
    let owner = OWNER.to_string();
    let mut ledger = RetryLedger::new();
    let mut bad = bot(20);
    bad.swap_infos = vec![swap_info(20, 10)];
    let r = repay_bot(state(), &owner, secs(1), &mut ledger, vec![bot(10), bad, bot(30)]);
    assert_eq!(r, Err(ContractError::InvalidSwapInfo));
    assert!(ledger.entries().is_empty());
}

#[test]
fn short_parameter_row_is_rejected() {
    let owner = OWNER.to_string();
    let mut ledger = RetryLedger::new();
    let mut bad = bot(20);
    bad.swap_infos[0].swap_params[3].pop();
    let r = repay_bot(state(), &owner, secs(1), &mut ledger, vec![bad]);
    assert_eq!(r, Err(ContractError::InvalidSwapInfo));
}

#[test]
fn bad_pool_address_is_rejected() {
    let owner = OWNER.to_string();
    let mut ledger = RetryLedger::new();
    let mut bad = bot(20);
    bad.swap_infos[0].pools[4] = "0xnothex".to_string();
    let r = repay_bot(state(), &owner, secs(1), &mut ledger, vec![bot(10), bad]);
    assert_eq!(r, Err(ContractError::InvalidAddress));
    assert!(ledger.entries().is_empty());
}

#[test]
fn gated_item_is_not_checked() {
    let owner = OWNER.to_string();
    let mut ledger = RetryLedger::new();
    let mut gated = bot(20);
    gated.swap_infos = vec![swap_info(20, 3)];
    ledger.record(addr(20), "repay".to_string(), secs(1));
    let msg = repay_bot(state(), &owner, secs(2), &mut ledger, vec![gated, bot(30)]).unwrap();
    let tokens = decode("repay_bot", &repay_params(), &msg.payload);
    assert_eq!(array(&tokens[0]), &vec![Token::Address(h160(30))]);
}

#[test]
fn empty_repay_list_is_a_precondition_error() {
    let owner = OWNER.to_string();
    let mut ledger = RetryLedger::new();
    assert_eq!(repay_bot(state(), &owner, secs(1), &mut ledger, vec![]), Err(ContractError::EmptyBotInfo));
    ledger.record(addr(10), "repay".to_string(), secs(1));
    assert_eq!(repay_bot(state(), &owner, secs(2), &mut ledger, vec![]), Err(ContractError::EmptyBotInfo));
    assert_eq!(ledger.entries().len(), 1);
}

#[test]
fn set_paloma_encodes_selector_only() {
    let owner = OWNER.to_string();
    let msg = set_paloma(state(), &owner).unwrap();
    check_metadata(&msg);
    assert_eq!(msg.payload, ethabi::short_signature("set_paloma", &[]).to_vec());
}

#[test]
fn address_setters_encode_their_argument() {
    let owner = OWNER.to_string();
    let cases: Vec<(&str, Result<PalomaMsg, ContractError>)> = vec![
        ("update_compass", update_compass(state(), &owner, addr(1))),
        ("update_blueprint", update_blueprint(state(), &owner, addr(1))),
        ("update_refund_wallet", update_refund_wallet(state(), &owner, addr(1))),
        ("update_service_fee_collector", update_service_fee_collector(state(), &owner, addr(1))),
    ];
    for (name, r) in cases {
        let msg = r.unwrap();
        check_metadata(&msg);
        let tokens = decode(name, &[ParamType::Address], &msg.payload);
        assert_eq!(tokens, vec![Token::Address(h160(1))]);
    }
    assert_eq!(update_compass(state(), &owner, "0x1234".to_string()), Err(ContractError::InvalidAddress));
}

#[test]
fn uint_setters_encode_their_argument() {
    let owner = OWNER.to_string();
    let msg = update_gas_fee(state(), &owner, word(77)).unwrap();
    assert_eq!(decode("update_gas_fee", &[ParamType::Uint(256)], &msg.payload), vec![uint(77)]);
    let msg = update_service_fee(state(), &owner, word(88)).unwrap();
    assert_eq!(decode("update_service_fee", &[ParamType::Uint(256)], &msg.payload), vec![uint(88)]);
}

#[test]
fn execute_dispatches_by_operation() {
    let owner = OWNER.to_string();
    let mut ledger = RetryLedger::new();
    let msg = execute(
        state(),
        &owner,
        secs(1),
        &mut ledger,
        ExecuteMsg::RepayBot { bot_info: vec![bot(10)] },
    )
    .unwrap();
    let tokens = decode("repay_bot", &repay_params(), &msg.payload);
    assert_eq!(array(&tokens[0]), &vec![Token::Address(h160(10))]);
    let msg = execute(state(), &owner, secs(1), &mut ledger, ExecuteMsg::UpdateGasFee { new_gas_fee: word(3) }).unwrap();
    assert_eq!(decode("update_gas_fee", &[ParamType::Uint(256)], &msg.payload), vec![uint(3)]);
}

#[test]
fn job_id_query_returns_configuration() {
    let st = state();
    assert_eq!(get_job_id(&st).job_id, "job-7");
    assert_eq!(st.owner, OWNER);
    assert_eq!(st.retry_delay, DELAY);
}
