//! The relay's operations: each checks the caller, builds the argument list of
//! one outbound function, and wraps its call data in a dispatch message.
use vstd::prelude::*;
use ethabi::{ParamType, Token};
use crate::abi::{
    Word, address_token, all_conform, be_value, is_call_data, decimal_text, encode_call, is_address_text,
    is_address_token, is_uint_token, uint_token, uint_tokens, word_decimal,
};
use crate::batch::{
    BotTokens, admitted_bots, bot_tokens, create_next_bot_params, create_next_bot_params_vec,
    first_error, is_repay_bot_params, is_swap_list_token, repay_tag, lemma_create_tokens_conform,
    lemma_repay_tokens_conform, is_uint_list_token, lemma_first_error_of_batch,
    repay_bot_params, repay_gate, repay_lists_match, repay_tokens_match,
};
use crate::msg::{
    BotInfo, ContractError, ExecuteMsg, GetJobIdResponse, InstantiateMsg, Metadata, PalomaMsg, State,
};
use crate::retry::{KeyView, RetryLedger, admits};

verus! {

/// The message carries the stored job id and metadata, unchanged.
pub open spec fn dispatch_of(msg: PalomaMsg, state: State) -> bool {
    &&& msg.job_id == state.job_id
    &&& msg.metadata == state.metadata
}

/// The retry key of a create request: the decimal texts of the bot id and of
/// the remaining count.
pub open spec fn create_key(bot_id: Word, remaining_count: Word) -> KeyView {
    (decimal_text(be_value(bot_id@)), decimal_text(be_value(remaining_count@)))
}

pub open spec fn create_tokens_match(
    ts: Seq<Token>,
    bot_id: Word,
    callbacker: Seq<char>,
    callback_args: Seq<Word>,
    remaining_count: Word,
) -> bool {
    &&& ts.len() == 4
    &&& is_uint_token(ts[0], bot_id)
    &&& is_address_token(ts[1], callbacker)
    &&& is_uint_list_token(ts[2], callback_args)
    &&& is_uint_token(ts[3], remaining_count)
}

/// `payload` calls `create_next_bot(bot_id, callbacker, callback_args,
/// remaining_count)`, with arguments that fit its parameter types.
pub open spec fn is_create_next_bot_call(
    payload: Seq<u8>,
    bot_id: Word,
    callbacker: Seq<char>,
    callback_args: Seq<Word>,
    remaining_count: Word,
) -> bool {
    exists|ts: Seq<Token>|
        create_tokens_match(ts, bot_id, callbacker, callback_args, remaining_count) && all_conform(
            ts,
            create_next_bot_params(),
        ) && is_call_data(payload, "create_next_bot"@, create_next_bot_params(), ts)
}

/// `payload` calls `repay_bot` with the four parallel lists of the items `adm`,
/// which fit its parameter types.
pub open spec fn is_repay_bot_call(payload: Seq<u8>, adm: Seq<BotInfo>) -> bool {
    exists|ps: Seq<ParamType>, ts: Seq<Token>|
        is_repay_bot_params(ps) && repay_tokens_match(ts, adm) && all_conform(ts, ps) && is_call_data(
            payload,
            "repay_bot"@,
            ps,
            ts,
        )
}

/// The outcome of a setter that sends one address to function `name`.
pub open spec fn address_setter_outcome(
    state: State,
    sender: Seq<char>,
    name: Seq<char>,
    value: Seq<char>,
    r: Result<PalomaMsg, ContractError>,
) -> bool {
    if state.owner@ != sender {
        r == Err::<PalomaMsg, ContractError>(ContractError::Unauthorized)
    } else if !is_address_text(value) {
        r == Err::<PalomaMsg, ContractError>(ContractError::InvalidAddress)
    } else {
        r matches Ok(msg) && dispatch_of(msg, state) && exists|t: Token|
            is_address_token(t, value) && is_call_data(
                msg.payload@,
                name,
                seq![ParamType::Address],
                seq![t],
            )
    }
}

/// The outcome of a setter that sends one 256-bit integer to function `name`.
pub open spec fn uint_setter_outcome(
    state: State,
    sender: Seq<char>,
    name: Seq<char>,
    value: Word,
    r: Result<PalomaMsg, ContractError>,
) -> bool {
    if state.owner@ != sender {
        r == Err::<PalomaMsg, ContractError>(ContractError::Unauthorized)
    } else {
        r matches Ok(msg) && dispatch_of(msg, state) && exists|t: Token|
            is_uint_token(t, value) && is_call_data(
                msg.payload@,
                name,
                seq![ParamType::Uint(256)],
                seq![t],
            )
    }
}

/// The outcome of `set_paloma`: the owner always gets the call, with no
/// arguments.
pub open spec fn set_paloma_outcome(state: State, sender: Seq<char>, r: Result<PalomaMsg, ContractError>) -> bool {
    if state.owner@ != sender {
        r == Err::<PalomaMsg, ContractError>(ContractError::Unauthorized)
    } else {
        r matches Ok(msg) && dispatch_of(msg, state) && is_call_data(
            msg.payload@,
            "set_paloma"@,
            Seq::empty(),
            Seq::empty(),
        )
    }
}

/// The outcome of `create_next_bot` on the records `before`, which become
/// `after`: the key is checked first, then the callbacker's address; only a
/// dispatch records the key.
pub open spec fn create_next_bot_outcome(
    state: State,
    sender: Seq<char>,
    now: u64,
    before: Map<KeyView, u64>,
    after: Map<KeyView, u64>,
    bot_id: Word,
    callbacker: Seq<char>,
    callback_args: Seq<Word>,
    remaining_count: Word,
    r: Result<PalomaMsg, ContractError>,
) -> bool {
    let k = create_key(bot_id, remaining_count);
    if state.owner@ != sender {
        r == Err::<PalomaMsg, ContractError>(ContractError::Unauthorized) && after == before
    } else if !admits(before, k, now, state.retry_delay) {
        r == Err::<PalomaMsg, ContractError>(ContractError::AllPending) && after == before
    } else if !is_address_text(callbacker) {
        r == Err::<PalomaMsg, ContractError>(ContractError::InvalidAddress) && after == before
    } else {
        r matches Ok(msg) && after == before.insert(k, now) && dispatch_of(msg, state)
            && is_create_next_bot_call(msg.payload@, bot_id, callbacker, callback_args, remaining_count)
    }
}

/// The outcome of `repay_bot` on the records `before`, which become `after`:
/// the first error among the admitted items wins; with none and nothing
/// admitted the batch is pending; otherwise the admitted items are dispatched
/// and recorded.
pub open spec fn repay_bot_outcome(
    state: State,
    sender: Seq<char>,
    now: u64,
    before: Map<KeyView, u64>,
    after: Map<KeyView, u64>,
    bots: Seq<BotInfo>,
    r: Result<PalomaMsg, ContractError>,
) -> bool {
    let adm = admitted_bots(before, bots, now, state.retry_delay);
    if state.owner@ != sender {
        r == Err::<PalomaMsg, ContractError>(ContractError::Unauthorized) && after == before
    } else if bots.len() == 0 {
        r == Err::<PalomaMsg, ContractError>(ContractError::EmptyBotInfo) && after == before
    } else if first_error(adm) is Some {
        r == Err::<PalomaMsg, ContractError>(first_error(adm)->Some_0) && after == before
    } else if adm.len() == 0 {
        r == Err::<PalomaMsg, ContractError>(ContractError::AllPending) && after == before
    } else {
        r matches Ok(msg) && after == repay_gate(before, bots, now, state.retry_delay)
            && dispatch_of(msg, state) && is_repay_bot_call(msg.payload@, adm)
    }
}

/// The retry key of a create request, as text.
pub fn create_retry_key(bot_id: &Word, remaining_count: &Word) -> (r: (String, String))
    ensures
        (r.0@, r.1@) == create_key(*bot_id, *remaining_count),
{
    (word_decimal(bot_id), word_decimal(remaining_count))
}

/// The retry key of a repay item with bot address `bot`, as text.
pub fn repay_retry_key(bot: &String) -> (r: (String, String))
    ensures
        (r.0@, r.1@) == (bot@, repay_tag()),
{
    (bot.clone(), "repay".to_owned())
}

/// The stored configuration of a new relay, owned by `sender`.
pub fn instantiate(sender: String, msg: InstantiateMsg) -> (r: State)
    ensures
        r.retry_delay == msg.retry_delay,
        r.job_id == msg.job_id,
        r.owner == sender,
        r.metadata == (Metadata { creator: msg.creator, signers: msg.signers }),
{
    State {
        retry_delay: msg.retry_delay,
        job_id: msg.job_id,
        owner: sender,
        metadata: Metadata { creator: msg.creator, signers: msg.signers },
    }
}

/// The configured job id.
pub fn get_job_id(state: &State) -> (r: GetJobIdResponse)
    ensures
        r.job_id@ == state.job_id@,
{
    GetJobIdResponse { job_id: state.job_id.clone() }
}

fn dispatch(state: State, payload: Vec<u8>) -> (r: PalomaMsg)
    ensures
        dispatch_of(r, state),
        r.payload == payload,
{
    PalomaMsg { job_id: state.job_id, payload, metadata: state.metadata }
}

fn address_setter(state: State, sender: &String, name: &str, value: &String) -> (r: Result<
    PalomaMsg,
    ContractError,
>)
    ensures
        address_setter_outcome(state, sender@, name@, value@, r),
{
    if !(state.owner == *sender) {
        return Err(ContractError::Unauthorized);
    }
    let t = match address_token(value) {
        Some(t) => t,
        None => {
            return Err(ContractError::InvalidAddress);
        },
    };
    let ghost tg = t;
    let params = vec![ParamType::Address];
    let tokens = vec![t];
    let payload = encode_call(name, &params, &tokens);
    assert(params@ =~= seq![ParamType::Address]);
    assert(tokens@ =~= seq![tg]);
    let msg = dispatch(state, payload);
    assert(is_address_token(tg, value@) && is_call_data(
        msg.payload@,
        name@,
        seq![ParamType::Address],
        seq![tg],
    ));
    Ok(msg)
}

fn uint_setter(state: State, sender: &String, name: &str, value: &Word) -> (r: Result<
    PalomaMsg,
    ContractError,
>)
    ensures
        uint_setter_outcome(state, sender@, name@, *value, r),
{
    if !(state.owner == *sender) {
        return Err(ContractError::Unauthorized);
    }
    let t = uint_token(value);
    let ghost tg = t;
    let params = vec![ParamType::Uint(256)];
    let tokens = vec![t];
    let payload = encode_call(name, &params, &tokens);
    assert(params@ =~= seq![ParamType::Uint(256)]);
    assert(tokens@ =~= seq![tg]);
    let msg = dispatch(state, payload);
    assert(is_uint_token(tg, *value) && is_call_data(
        msg.payload@,
        name@,
        seq![ParamType::Uint(256)],
        seq![tg],
    ));
    Ok(msg)
}

/// Asks the destination to register its relay: `set_paloma()`.
pub fn set_paloma(state: State, sender: &String) -> (r: Result<PalomaMsg, ContractError>)
    ensures
        set_paloma_outcome(state, sender@, r),
{
    if !(state.owner == *sender) {
        return Err(ContractError::Unauthorized);
    }
    let params: Vec<ParamType> = Vec::new();
    let tokens: Vec<Token> = Vec::new();
    let payload = encode_call("set_paloma", &params, &tokens);
    assert(params@ =~= Seq::<ParamType>::empty());
    assert(tokens@ =~= Seq::<Token>::empty());
    Ok(dispatch(state, payload))
}

/// `update_compass(new_compass)`.
pub fn update_compass(state: State, sender: &String, new_compass: String) -> (r: Result<
    PalomaMsg,
    ContractError,
>)
    ensures
        address_setter_outcome(state, sender@, "update_compass"@, new_compass@, r),
{
    address_setter(state, sender, "update_compass", &new_compass)
}

/// `update_blueprint(new_blueprint)`.
pub fn update_blueprint(state: State, sender: &String, new_blueprint: String) -> (r: Result<
    PalomaMsg,
    ContractError,
>)
    ensures
        address_setter_outcome(state, sender@, "update_blueprint"@, new_blueprint@, r),
{
    address_setter(state, sender, "update_blueprint", &new_blueprint)
}

/// `update_refund_wallet(new_refund_wallet)`.
pub fn update_refund_wallet(state: State, sender: &String, new_refund_wallet: String) -> (r: Result<
    PalomaMsg,
    ContractError,
>)
    ensures
        address_setter_outcome(state, sender@, "update_refund_wallet"@, new_refund_wallet@, r),
{
    address_setter(state, sender, "update_refund_wallet", &new_refund_wallet)
}

/// `update_service_fee_collector(new_service_fee_collector)`.
pub fn update_service_fee_collector(
    state: State,
    sender: &String,
    new_service_fee_collector: String,
) -> (r: Result<PalomaMsg, ContractError>)
    ensures
        address_setter_outcome(
            state,
            sender@,
            "update_service_fee_collector"@,
            new_service_fee_collector@,
            r,
        ),
{
    address_setter(state, sender, "update_service_fee_collector", &new_service_fee_collector)
}

/// `update_gas_fee(new_gas_fee)`.
pub fn update_gas_fee(state: State, sender: &String, new_gas_fee: Word) -> (r: Result<
    PalomaMsg,
    ContractError,
>)
    ensures
        uint_setter_outcome(state, sender@, "update_gas_fee"@, new_gas_fee, r),
{
    uint_setter(state, sender, "update_gas_fee", &new_gas_fee)
}

/// `update_service_fee(new_service_fee)`.
pub fn update_service_fee(state: State, sender: &String, new_service_fee: Word) -> (r: Result<
    PalomaMsg,
    ContractError,
>)
    ensures
        uint_setter_outcome(state, sender@, "update_service_fee"@, new_service_fee, r),
{
    uint_setter(state, sender, "update_service_fee", &new_service_fee)
}

/// `create_next_bot(bot_id, callbacker, callback_args, remaining_count)`,
/// held back per key (bot id, remaining count) at time `now` (nanoseconds).
pub fn create_next_bot(
    state: State,
    sender: &String,
    now: u64,
    ledger: &mut RetryLedger,
    bot_id: Word,
    callbacker: String,
    callback_args: Vec<Word>,
    remaining_count: Word,
) -> (r: Result<PalomaMsg, ContractError>)
    requires
        old(ledger).wf(),
    ensures
        final(ledger).wf(),
        create_next_bot_outcome(
            state,
            sender@,
            now,
            old(ledger)@,
            final(ledger)@,
            bot_id,
            callbacker@,
            callback_args@,
            remaining_count,
            r,
        ),
{
    if !(state.owner == *sender) {
        return Err(ContractError::Unauthorized);
    }
    let (id, tag) = create_retry_key(&bot_id, &remaining_count);
    if !ledger.would_admit(&id, &tag, now, state.retry_delay) {
        return Err(ContractError::AllPending);
    }
    let callbacker_token = match address_token(&callbacker) {
        Some(t) => t,
        None => {
            return Err(ContractError::InvalidAddress);
        },
    };
    ledger.record(id, tag, now);
    let args = uint_tokens(&callback_args);
    let tokens = vec![
        uint_token(&bot_id),
        callbacker_token,
        Token::Array(args),
        uint_token(&remaining_count),
    ];
    let params = create_next_bot_params_vec();
    let payload = encode_call("create_next_bot", &params, &tokens);
    let msg = dispatch(state, payload);
    assert(create_tokens_match(tokens@, bot_id, callbacker@, callback_args@, remaining_count));
    proof {
        lemma_create_tokens_conform(tokens@, bot_id, callbacker@, callback_args@, remaining_count);
    }
    assert(is_call_data(msg.payload@, "create_next_bot"@, create_next_bot_params(), tokens@));
    Ok(msg)
}

/// `repay_bot(bots, callbackers, callback_args, swap_infos)` over the items
/// that the retry check admits at time `now` (nanoseconds), each keyed by its bot
/// address and the repay tag. Admitted items keep their order; the others are
/// left out of all four lists. Nothing is recorded unless a message comes out.
pub fn repay_bot(
    state: State,
    sender: &String,
    now: u64,
    ledger: &mut RetryLedger,
    bot_info: Vec<BotInfo>,
) -> (r: Result<PalomaMsg, ContractError>)
    requires
        old(ledger).wf(),
    ensures
        final(ledger).wf(),
        repay_bot_outcome(state, sender@, now, old(ledger)@, final(ledger)@, bot_info@, r),
{
    if !(state.owner == *sender) {
        return Err(ContractError::Unauthorized);
    }
    if bot_info.len() == 0 {
        return Err(ContractError::EmptyBotInfo);
    }
    let ghost m0 = ledger@;
    let ghost s = bot_info@;
    let delay = state.retry_delay;
    let mut work = ledger.duplicate();
    let mut t_bots: Vec<Token> = Vec::new();
    let mut t_callbackers: Vec<Token> = Vec::new();
    let mut t_args: Vec<Token> = Vec::new();
    let mut t_swaps: Vec<Token> = Vec::new();
    let mut i: usize = 0;
    while i < bot_info.len()
        invariant
            0 <= i <= s.len(),
            bot_info@ == s,
            ledger@ == m0,
            ledger.wf(),
            work.wf(),
            delay == state.retry_delay,
            state.owner@ == sender@,
            s.len() > 0,
            work@ == repay_gate(m0, s.take(i as int), now, delay),
            first_error(admitted_bots(m0, s.take(i as int), now, delay)) is None,
            repay_lists_match(
                t_bots@,
                t_callbackers@,
                t_args@,
                t_swaps@,
                admitted_bots(m0, s.take(i as int), now, delay),
            ),
        decreases s.len() - i,
    {
        let item = &bot_info[i];
        let ghost prev = admitted_bots(m0, s.take(i as int), now, delay);
        assert(s.take(i + 1).drop_last() =~= s.take(i as int));
        assert(s.take(i + 1).last() == s[i as int]);
        let (id, tag) = repay_retry_key(&item.bot);
        let pass = work.try_admit(id, tag, now, delay);
        let ghost next = prev.push(s[i as int]);
        assert(next.drop_last() =~= prev);
        if pass {
            assert(admitted_bots(m0, s.take(i + 1), now, delay) == next);
        } else {
            assert(admitted_bots(m0, s.take(i + 1), now, delay) == prev);
        }
        if pass {
            match bot_tokens(item) {
                Ok(bt) => {
                    let BotTokens { bot, callbacker, callback_args, swap_infos } = bt;
                    t_bots.push(bot);
                    t_callbackers.push(callbacker);
                    t_args.push(callback_args);
                    t_swaps.push(swap_infos);
                    assert forall|j: int| 0 <= j < next.len() implies {
                        &&& is_address_token(#[trigger] t_bots@[j], next[j].bot@)
                        &&& is_address_token(t_callbackers@[j], next[j].callbacker@)
                        &&& is_uint_list_token(t_args@[j], next[j].callback_args@)
                        &&& is_swap_list_token(t_swaps@[j], next[j].swap_infos@)
                    } by {
                        if j < prev.len() {
                            assert(next[j] == prev[j]);
                        }
                    }
                },
                Err(e) => {
                    proof {
                        lemma_first_error_of_batch(m0, s, i + 1, now, delay);
                        assert(s.take(s.len() as int) =~= s);
                    }
                    return Err(e);
                },
            }
        }
        i = i + 1;
    }
    assert(s.take(s.len() as int) =~= s);
    if t_bots.len() == 0 {
        return Err(ContractError::AllPending);
    }
    *ledger = work;
    let ghost adm = admitted_bots(m0, s, now, delay);
    let tokens = vec![
        Token::Array(t_bots),
        Token::Array(t_callbackers),
        Token::Array(t_args),
        Token::Array(t_swaps),
    ];
    let params = repay_bot_params();
    let payload = encode_call("repay_bot", &params, &tokens);
    assert(repay_tokens_match(tokens@, adm));
    proof {
        lemma_repay_tokens_conform(tokens@, adm, params@);
    }
    let msg = dispatch(state, payload);
    assert(is_repay_bot_params(params@) && repay_tokens_match(tokens@, adm) && all_conform(
        tokens@,
        params@,
    ) && is_call_data(msg.payload@, "repay_bot"@, params@, tokens@));
    Ok(msg)
}

/// Runs the operation that `msg` names, with the outcome of that operation. A
/// caller other than the owner gets `Unauthorized` for every operation, and
/// only a dispatched create or repay request changes the ledger.
pub fn execute(
    state: State,
    sender: &String,
    now: u64,
    ledger: &mut RetryLedger,
    msg: ExecuteMsg,
) -> (r: Result<PalomaMsg, ContractError>)
    requires
        old(ledger).wf(),
    ensures
        final(ledger).wf(),
        state.owner@ != sender@ ==> r == Err::<PalomaMsg, ContractError>(
            ContractError::Unauthorized,
        ) && final(ledger)@ == old(ledger)@,
        match msg {
            ExecuteMsg::CreateNextBot { bot_id, callbacker, callback_args, remaining_count } => {
                create_next_bot_outcome(
                    state,
                    sender@,
                    now,
                    old(ledger)@,
                    final(ledger)@,
                    bot_id,
                    callbacker@,
                    callback_args@,
                    remaining_count,
                    r,
                )
            },
            ExecuteMsg::RepayBot { bot_info } => repay_bot_outcome(
                state,
                sender@,
                now,
                old(ledger)@,
                final(ledger)@,
                bot_info@,
                r,
            ),
            ExecuteMsg::SetPaloma => set_paloma_outcome(state, sender@, r) && final(ledger)@ == old(
                ledger,
            )@,
            ExecuteMsg::UpdateCompass { new_compass } => address_setter_outcome(
                state,
                sender@,
                "update_compass"@,
                new_compass@,
                r,
            ) && final(ledger)@ == old(ledger)@,
            ExecuteMsg::UpdateBlueprint { new_blueprint } => address_setter_outcome(
                state,
                sender@,
                "update_blueprint"@,
                new_blueprint@,
                r,
            ) && final(ledger)@ == old(ledger)@,
            ExecuteMsg::UpdateRefundWallet { new_refund_wallet } => address_setter_outcome(
                state,
                sender@,
                "update_refund_wallet"@,
                new_refund_wallet@,
                r,
            ) && final(ledger)@ == old(ledger)@,
            ExecuteMsg::UpdateGasFee { new_gas_fee } => uint_setter_outcome(
                state,
                sender@,
                "update_gas_fee"@,
                new_gas_fee,
                r,
            ) && final(ledger)@ == old(ledger)@,
            ExecuteMsg::UpdateServiceFeeCollector { new_service_fee_collector } => {
                address_setter_outcome(
                    state,
                    sender@,
                    "update_service_fee_collector"@,
                    new_service_fee_collector@,
                    r,
                ) && final(ledger)@ == old(ledger)@
            },
            ExecuteMsg::UpdateServiceFee { new_service_fee } => uint_setter_outcome(
                state,
                sender@,
                "update_service_fee"@,
                new_service_fee,
                r,
            ) && final(ledger)@ == old(ledger)@,
        },
{
    match msg {
        ExecuteMsg::CreateNextBot { bot_id, callbacker, callback_args, remaining_count } => {
            create_next_bot(
                state,
                sender,
                now,
                ledger,
                bot_id,
                callbacker,
                callback_args,
                remaining_count,
            )
        },
        ExecuteMsg::RepayBot { bot_info } => repay_bot(state, sender, now, ledger, bot_info),
        ExecuteMsg::SetPaloma => set_paloma(state, sender),
        ExecuteMsg::UpdateCompass { new_compass } => update_compass(state, sender, new_compass),
        ExecuteMsg::UpdateBlueprint { new_blueprint } => update_blueprint(
            state,
            sender,
            new_blueprint,
        ),
        ExecuteMsg::UpdateRefundWallet { new_refund_wallet } => update_refund_wallet(
            state,
            sender,
            new_refund_wallet,
        ),
        ExecuteMsg::UpdateGasFee { new_gas_fee } => update_gas_fee(state, sender, new_gas_fee),
        ExecuteMsg::UpdateServiceFeeCollector { new_service_fee_collector } => {
            update_service_fee_collector(state, sender, new_service_fee_collector)
        },
        ExecuteMsg::UpdateServiceFee { new_service_fee } => update_service_fee(
            state,
            sender,
            new_service_fee,
        ),
    }
}

} // verus!
