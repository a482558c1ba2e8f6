//! The batch assembler: the parameter types of each outbound function, the
//! argument trees of request items, and which items of a repay batch pass the
//! retry check.
use vstd::prelude::*;
use ethabi::{ParamType, Token};
use crate::abi::{
    Word, address_token, address_tokens, uint_token, uint_tokens, is_address_text, is_address_token,
    is_uint_token, all_address_texts, addresses_match, uints_match, items, conforms, all_conform,
};
use crate::msg::{BotInfo, ContractError, SwapInfo};
use crate::retry::{KeyView, admits, after_admit};

verus! {

// ---------------------------------------------------------------------------
// Parameter types

pub open spec fn uint256_kind() -> ParamType {
    ParamType::Uint(256)
}

/// `(address[11], uint256[5][5], uint256, uint256, address[5])`
pub open spec fn is_swap_info_kind(p: ParamType) -> bool {
    match p {
        ParamType::Tuple(ps) => {
            &&& ps@.len() == 5
            &&& ps@[0] == ParamType::FixedArray(Box::new(ParamType::Address), 11)
            &&& ps@[1] == ParamType::FixedArray(
                Box::new(ParamType::FixedArray(Box::new(uint256_kind()), 5)),
                5,
            )
            &&& ps@[2] == uint256_kind()
            &&& ps@[3] == uint256_kind()
            &&& ps@[4] == ParamType::FixedArray(Box::new(ParamType::Address), 5)
        },
        _ => false,
    }
}

/// `repay_bot(address[], address[], uint256[][], (swap info)[][])`
pub open spec fn is_repay_bot_params(ps: Seq<ParamType>) -> bool {
    &&& ps.len() == 4
    &&& ps[0] == ParamType::Array(Box::new(ParamType::Address))
    &&& ps[1] == ParamType::Array(Box::new(ParamType::Address))
    &&& ps[2] == ParamType::Array(Box::new(ParamType::Array(Box::new(uint256_kind()))))
    &&& match ps[3] {
        ParamType::Array(a) => match *a {
            ParamType::Array(b) => is_swap_info_kind(*b),
            _ => false,
        },
        _ => false,
    }
}

/// `create_next_bot(uint256, address, uint256[], uint256)`
pub open spec fn create_next_bot_params() -> Seq<ParamType> {
    seq![
        uint256_kind(),
        ParamType::Address,
        ParamType::Array(Box::new(uint256_kind())),
        uint256_kind(),
    ]
}

/// The parameter types of `repay_bot`.
pub fn repay_bot_params() -> (r: Vec<ParamType>)
    ensures
        is_repay_bot_params(r@),
{
    let swap = ParamType::Tuple(
        vec![
            ParamType::FixedArray(Box::new(ParamType::Address), 11),
            ParamType::FixedArray(Box::new(ParamType::FixedArray(Box::new(ParamType::Uint(256)), 5)), 5),
            ParamType::Uint(256),
            ParamType::Uint(256),
            ParamType::FixedArray(Box::new(ParamType::Address), 5),
        ],
    );
    vec![
        ParamType::Array(Box::new(ParamType::Address)),
        ParamType::Array(Box::new(ParamType::Address)),
        ParamType::Array(Box::new(ParamType::Array(Box::new(ParamType::Uint(256))))),
        ParamType::Array(Box::new(ParamType::Array(Box::new(swap)))),
    ]
}

/// The parameter types of `create_next_bot`.
pub fn create_next_bot_params_vec() -> (r: Vec<ParamType>)
    ensures
        r@ == create_next_bot_params(),
{
    let r = vec![
        ParamType::Uint(256),
        ParamType::Address,
        ParamType::Array(Box::new(ParamType::Uint(256))),
        ParamType::Uint(256),
    ];
    assert(r@ =~= create_next_bot_params());
    r
}

// ---------------------------------------------------------------------------
// Shapes and argument trees of request items

/// The fixed lengths of a route: 11 route addresses, 5 rows of 5 parameters,
/// 5 pools.
pub open spec fn swap_info_shape_ok(s: SwapInfo) -> bool {
    &&& s.route@.len() == 11
    &&& s.swap_params@.len() == 5
    &&& forall|i: int| 0 <= i < 5 ==> (#[trigger] s.swap_params@[i])@.len() == 5
    &&& s.pools@.len() == 5
}

pub open spec fn swap_info_addresses_ok(s: SwapInfo) -> bool {
    all_address_texts(s.route@) && all_address_texts(s.pools@)
}

pub open spec fn is_uint_list_token(t: Token, ws: Seq<Word>) -> bool {
    t is Array && uints_match(items(t), ws)
}

/// The route tuple of a swap info: its fields in declared order, fixed arrays
/// for the fixed-length ones.
pub open spec fn is_swap_token(t: Token, s: SwapInfo) -> bool {
    &&& t is Tuple
    &&& items(t).len() == 5
    &&& items(t)[0] is FixedArray
    &&& addresses_match(items(items(t)[0]), s.route@)
    &&& items(t)[1] is FixedArray
    &&& items(items(t)[1]).len() == s.swap_params@.len()
    &&& forall|i: int|
        0 <= i < s.swap_params@.len() ==> {
            &&& (#[trigger] items(items(t)[1])[i]) is FixedArray
            &&& uints_match(items(items(items(t)[1])[i]), s.swap_params@[i]@)
        }
    &&& is_uint_token(items(t)[2], s.amount)
    &&& is_uint_token(items(t)[3], s.expected)
    &&& items(t)[4] is FixedArray
    &&& addresses_match(items(items(t)[4]), s.pools@)
}

pub open spec fn is_swap_list_token(t: Token, ss: Seq<SwapInfo>) -> bool {
    &&& t is Array
    &&& items(t).len() == ss.len()
    &&& forall|i: int| 0 <= i < ss.len() ==> is_swap_token(#[trigger] items(t)[i], ss[i])
}

pub open spec fn bot_shape_ok(b: BotInfo) -> bool {
    forall|i: int| 0 <= i < b.swap_infos@.len() ==> swap_info_shape_ok(#[trigger] b.swap_infos@[i])
}

pub open spec fn bot_addresses_ok(b: BotInfo) -> bool {
    &&& is_address_text(b.bot@)
    &&& is_address_text(b.callbacker@)
    &&& forall|i: int|
        0 <= i < b.swap_infos@.len() ==> swap_info_addresses_ok(#[trigger] b.swap_infos@[i])
}

/// What is wrong with a repay item, if anything: lengths are checked before
/// addresses.
pub open spec fn bot_error(b: BotInfo) -> Option<ContractError> {
    if !bot_shape_ok(b) {
        Some(ContractError::InvalidSwapInfo)
    } else if !bot_addresses_ok(b) {
        Some(ContractError::InvalidAddress)
    } else {
        None
    }
}

/// The four arguments that one admitted repay item contributes.
pub struct BotTokens {
    pub bot: Token,
    pub callbacker: Token,
    pub callback_args: Token,
    pub swap_infos: Token,
}

pub open spec fn bot_tokens_match(t: BotTokens, b: BotInfo) -> bool {
    &&& is_address_token(t.bot, b.bot@)
    &&& is_address_token(t.callbacker, b.callbacker@)
    &&& is_uint_list_token(t.callback_args, b.callback_args@)
    &&& is_swap_list_token(t.swap_infos, b.swap_infos@)
}

/// Whether all fixed-length fields of a route have their declared length.
pub fn check_swap_info_shape(s: &SwapInfo) -> (r: bool)
    ensures
        r == swap_info_shape_ok(*s),
{
    if s.route.len() != 11 || s.swap_params.len() != 5 || s.pools.len() != 5 {
        return false;
    }
    let mut i: usize = 0;
    while i < 5
        invariant
            0 <= i <= 5,
            s.swap_params@.len() == 5,
            forall|j: int| 0 <= j < i ==> (#[trigger] s.swap_params@[j])@.len() == 5,
        decreases 5 - i,
    {
        if s.swap_params[i].len() != 5 {
            return false;
        }
        i = i + 1;
    }
    true
}

/// The route tuple of a swap info whose lengths are right; `None` when one of
/// its addresses is not an address.
pub fn swap_token(s: &SwapInfo) -> (r: Option<Token>)
    requires
        swap_info_shape_ok(*s),
    ensures
        r is Some <==> swap_info_addresses_ok(*s),
        r matches Some(t) ==> is_swap_token(t, *s),
{
    let route = match address_tokens(&s.route) {
        Some(ts) => ts,
        None => {
            return None;
        },
    };
    let pools = match address_tokens(&s.pools) {
        Some(ts) => ts,
        None => {
            return None;
        },
    };
    let mut rows: Vec<Token> = Vec::new();
    let mut i: usize = 0;
    while i < s.swap_params.len()
        invariant
            0 <= i <= s.swap_params@.len(),
            rows@.len() == i,
            forall|j: int|
                0 <= j < i ==> {
                    &&& (#[trigger] rows@[j]) is FixedArray
                    &&& uints_match(items(rows@[j]), s.swap_params@[j]@)
                },
        decreases s.swap_params@.len() - i,
    {
        let row = uint_tokens(&s.swap_params[i]);
        rows.push(Token::FixedArray(row));
        i = i + 1;
    }
    let amount = uint_token(&s.amount);
    let expected = uint_token(&s.expected);
    let t = Token::Tuple(
        vec![
            Token::FixedArray(route),
            Token::FixedArray(rows),
            amount,
            expected,
            Token::FixedArray(pools),
        ],
    );
    Some(t)
}

/// The four arguments of one repay item, or what is wrong with it.
pub fn bot_tokens(b: &BotInfo) -> (r: Result<BotTokens, ContractError>)
    ensures
        r matches Ok(t) ==> bot_error(*b) is None && bot_tokens_match(t, *b),
        r matches Err(e) ==> bot_error(*b) == Some(e),
{
    let mut i: usize = 0;
    while i < b.swap_infos.len()
        invariant
            0 <= i <= b.swap_infos@.len(),
            forall|j: int| 0 <= j < i ==> swap_info_shape_ok(#[trigger] b.swap_infos@[j]),
        decreases b.swap_infos@.len() - i,
    {
        if !check_swap_info_shape(&b.swap_infos[i]) {
            return Err(ContractError::InvalidSwapInfo);
        }
        i = i + 1;
    }
    let bot = match address_token(&b.bot) {
        Some(t) => t,
        None => {
            return Err(ContractError::InvalidAddress);
        },
    };
    let callbacker = match address_token(&b.callbacker) {
        Some(t) => t,
        None => {
            return Err(ContractError::InvalidAddress);
        },
    };
    let args = uint_tokens(&b.callback_args);
    let mut swaps: Vec<Token> = Vec::new();
    let mut k: usize = 0;
    while k < b.swap_infos.len()
        invariant
            0 <= k <= b.swap_infos@.len(),
            bot_shape_ok(*b),
            swaps@.len() == k,
            forall|j: int| 0 <= j < k ==> swap_info_addresses_ok(#[trigger] b.swap_infos@[j]),
            forall|j: int| 0 <= j < k ==> is_swap_token(#[trigger] swaps@[j], b.swap_infos@[j]),
        decreases b.swap_infos@.len() - k,
    {
        match swap_token(&b.swap_infos[k]) {
            Some(t) => {
                swaps.push(t);
            },
            None => {
                return Err(ContractError::InvalidAddress);
            },
        }
        k = k + 1;
    }
    Ok(
        BotTokens {
            bot,
            callbacker,
            callback_args: Token::Array(args),
            swap_infos: Token::Array(swaps),
        },
    )
}

// ---------------------------------------------------------------------------
// A repay batch through the retry check

/// The tag that marks the retry key of a repay item.
pub open spec fn repay_tag() -> Seq<char> {
    "repay"@
}

/// The retry key of a repay item: its bot address and the repay tag.
pub open spec fn repay_key(b: BotInfo) -> KeyView {
    (b.bot@, repay_tag())
}

/// The records after the retry check has decided on each item of `bots`, in order.
pub open spec fn repay_gate(m: Map<KeyView, u64>, bots: Seq<BotInfo>, now: u64, retry_delay: u64) -> Map<
    KeyView,
    u64,
>
    decreases bots.len(),
{
    if bots.len() == 0 {
        m
    } else {
        after_admit(repay_gate(m, bots.drop_last(), now, retry_delay), repay_key(bots.last()), now, retry_delay)
    }
}

/// The items of `bots` that the retry check admits, in their input order.
pub open spec fn admitted_bots(m: Map<KeyView, u64>, bots: Seq<BotInfo>, now: u64, retry_delay: u64) -> Seq<
    BotInfo,
>
    decreases bots.len(),
{
    if bots.len() == 0 {
        Seq::empty()
    } else {
        let prev = admitted_bots(m, bots.drop_last(), now, retry_delay);
        if admits(repay_gate(m, bots.drop_last(), now, retry_delay), repay_key(bots.last()), now, retry_delay) {
            prev.push(bots.last())
        } else {
            prev
        }
    }
}

/// The error of the first item of `bots` that has one.
pub open spec fn first_error(bots: Seq<BotInfo>) -> Option<ContractError>
    decreases bots.len(),
{
    if bots.len() == 0 {
        None
    } else {
        match first_error(bots.drop_last()) {
            Some(e) => Some(e),
            None => bot_error(bots.last()),
        }
    }
}

/// The four parallel argument lists of `repay_bot` hold, at each index, the
/// fields of the admitted item at that index.
pub open spec fn repay_lists_match(
    bots: Seq<Token>,
    callbackers: Seq<Token>,
    args: Seq<Token>,
    swaps: Seq<Token>,
    adm: Seq<BotInfo>,
) -> bool {
    &&& bots.len() == adm.len()
    &&& callbackers.len() == adm.len()
    &&& args.len() == adm.len()
    &&& swaps.len() == adm.len()
    &&& forall|i: int|
        0 <= i < adm.len() ==> {
            &&& is_address_token(#[trigger] bots[i], adm[i].bot@)
            &&& is_address_token(callbackers[i], adm[i].callbacker@)
            &&& is_uint_list_token(args[i], adm[i].callback_args@)
            &&& is_swap_list_token(swaps[i], adm[i].swap_infos@)
        }
}

/// The argument list of `repay_bot` for the admitted items `adm`.
pub open spec fn repay_tokens_match(ts: Seq<Token>, adm: Seq<BotInfo>) -> bool {
    &&& ts.len() == 4
    &&& ts[0] is Array
    &&& ts[1] is Array
    &&& ts[2] is Array
    &&& ts[3] is Array
    &&& repay_lists_match(items(ts[0]), items(ts[1]), items(ts[2]), items(ts[3]), adm)
}

proof fn lemma_first_error_prefix(a: Seq<BotInfo>, b: Seq<BotInfo>)
    requires
        a.len() <= b.len(),
        b.subrange(0, a.len() as int) == a,
        first_error(a) is Some,
    ensures
        first_error(b) == first_error(a),
    decreases b.len(),
{
    if b.len() == a.len() {
        assert(b =~= a);
    } else {
        assert(b.drop_last().subrange(0, a.len() as int) =~= a);
        lemma_first_error_prefix(a, b.drop_last());
    }
}

proof fn lemma_admitted_prefix(m: Map<KeyView, u64>, s: Seq<BotInfo>, i: int, now: u64, d: u64)
    requires
        0 <= i <= s.len(),
    ensures
        admitted_bots(m, s.take(i), now, d).len() <= admitted_bots(m, s, now, d).len(),
        admitted_bots(m, s, now, d).subrange(0, admitted_bots(m, s.take(i), now, d).len() as int)
            == admitted_bots(m, s.take(i), now, d),
    decreases s.len(),
{
    let a = admitted_bots(m, s.take(i), now, d);
    if i == s.len() {
        assert(s.take(i) =~= s);
        assert(a.subrange(0, a.len() as int) =~= a);
    } else {
        assert(s.drop_last().take(i) =~= s.take(i));
        lemma_admitted_prefix(m, s.drop_last(), i, now, d);
        let p = admitted_bots(m, s.drop_last(), now, d);
        let full = admitted_bots(m, s, now, d);
        assert(full.subrange(0, p.len() as int) =~= p);
        assert(full.subrange(0, a.len() as int) =~= p.subrange(0, a.len() as int));
    }
}

/// Where item `i` of a batch fails, the batch fails with the first failure.
pub proof fn lemma_first_error_of_batch(
    m: Map<KeyView, u64>,
    s: Seq<BotInfo>,
    i: int,
    now: u64,
    d: u64,
)
    requires
        0 <= i <= s.len(),
        first_error(admitted_bots(m, s.take(i), now, d)) is Some,
    ensures
        first_error(admitted_bots(m, s, now, d)) == first_error(admitted_bots(m, s.take(i), now, d)),
{
    lemma_admitted_prefix(m, s, i, now, d);
    lemma_first_error_prefix(admitted_bots(m, s.take(i), now, d), admitted_bots(m, s, now, d));
}

proof fn lemma_uint_list_conforms(t: Token, ws: Seq<Word>)
    requires
        is_uint_list_token(t, ws),
    ensures
        conforms(t, ParamType::Array(Box::new(uint256_kind()))),
{
    match t {
        Token::Array(ts) => {
            assert forall|i: int| 0 <= i < ts.len() implies conforms(
                #[trigger] ts@[i],
                uint256_kind(),
            ) by {
                assert(is_uint_token(items(t)[i], ws[i]));
            }
        },
        _ => {},
    }
}

proof fn lemma_address_row_conforms(t: Token, ss: Seq<String>, n: usize)
    requires
        t is FixedArray,
        addresses_match(items(t), ss),
        ss.len() == n,
    ensures
        conforms(t, ParamType::FixedArray(Box::new(ParamType::Address), n)),
{
    match t {
        Token::FixedArray(ts) => {
            assert forall|i: int| 0 <= i < ts.len() implies conforms(
                #[trigger] ts@[i],
                ParamType::Address,
            ) by {
                assert(is_address_token(items(t)[i], ss[i]@));
            }
        },
        _ => {},
    }
}

proof fn lemma_swap_conforms(t: Token, s: SwapInfo, p: ParamType)
    requires
        is_swap_token(t, s),
        swap_info_shape_ok(s),
        is_swap_info_kind(p),
    ensures
        conforms(t, p),
{
    match t {
        Token::Tuple(es) => {
            match p {
                ParamType::Tuple(ps) => {
                    lemma_address_row_conforms(es@[0], s.route@, 11);
                    lemma_address_row_conforms(es@[4], s.pools@, 5);
                    match es@[1] {
                        Token::FixedArray(rows) => {
                            assert forall|i: int| 0 <= i < rows.len() implies conforms(
                                #[trigger] rows@[i],
                                ParamType::FixedArray(Box::new(uint256_kind()), 5),
                            ) by {
                                assert(items(items(t)[1])[i] == rows@[i]);
                                match rows@[i] {
                                    Token::FixedArray(cs) => {
                                        assert forall|j: int| 0 <= j < cs.len() implies conforms(
                                            #[trigger] cs@[j],
                                            uint256_kind(),
                                        ) by {
                                            assert(is_uint_token(
                                                items(rows@[i])[j],
                                                s.swap_params@[i]@[j],
                                            ));
                                        }
                                    },
                                    _ => {},
                                }
                            }
                        },
                        _ => {},
                    }
                    assert(is_uint_token(es@[2], s.amount));
                    assert(is_uint_token(es@[3], s.expected));
                    assert forall|k: int| 0 <= k < es.len() implies conforms(
                        #[trigger] es@[k],
                        ps@[k],
                    ) by {}
                },
                _ => {},
            }
        },
        _ => {},
    }
}

proof fn lemma_swap_list_conforms(t: Token, ss: Seq<SwapInfo>, p: ParamType)
    requires
        is_swap_list_token(t, ss),
        forall|i: int| 0 <= i < ss.len() ==> swap_info_shape_ok(#[trigger] ss[i]),
        is_swap_info_kind(p),
    ensures
        conforms(t, ParamType::Array(Box::new(p))),
{
    match t {
        Token::Array(ts) => {
            assert forall|i: int| 0 <= i < ts.len() implies conforms(#[trigger] ts@[i], p) by {
                assert(is_swap_token(items(t)[i], ss[i]));
                lemma_swap_conforms(ts@[i], ss[i], p);
            }
        },
        _ => {},
    }
}

proof fn lemma_no_error_each(s: Seq<BotInfo>)
    requires
        first_error(s) is None,
    ensures
        forall|i: int| 0 <= i < s.len() ==> bot_error(#[trigger] s[i]) is None,
    decreases s.len(),
{
    if s.len() > 0 {
        lemma_no_error_each(s.drop_last());
        assert forall|i: int| 0 <= i < s.len() implies bot_error(#[trigger] s[i]) is None by {
            if i < s.len() - 1 {
                assert(s[i] == s.drop_last()[i]);
            }
        }
    }
}

/// The argument list built for error-free admitted items fits the parameter
/// types of `repay_bot`.
pub proof fn lemma_repay_tokens_conform(ts: Seq<Token>, adm: Seq<BotInfo>, ps: Seq<ParamType>)
    requires
        repay_tokens_match(ts, adm),
        first_error(adm) is None,
        is_repay_bot_params(ps),
    ensures
        all_conform(ts, ps),
{
    lemma_no_error_each(adm);
    let bots = items(ts[0]);
    let cbs = items(ts[1]);
    let args = items(ts[2]);
    let swaps = items(ts[3]);
    match ts[0] {
        Token::Array(xs) => {
            assert forall|i: int| 0 <= i < xs.len() implies conforms(
                #[trigger] xs@[i],
                ParamType::Address,
            ) by {
                assert(is_address_token(bots[i], adm[i].bot@));
            }
        },
        _ => {},
    }
    match ts[1] {
        Token::Array(xs) => {
            assert forall|i: int| 0 <= i < xs.len() implies conforms(
                #[trigger] xs@[i],
                ParamType::Address,
            ) by {
                assert(is_address_token(bots[i], adm[i].bot@));
                assert(is_address_token(cbs[i], adm[i].callbacker@));
            }
        },
        _ => {},
    }
    match ts[2] {
        Token::Array(xs) => {
            assert forall|i: int| 0 <= i < xs.len() implies conforms(
                #[trigger] xs@[i],
                ParamType::Array(Box::new(uint256_kind())),
            ) by {
                assert(is_address_token(bots[i], adm[i].bot@));
                lemma_uint_list_conforms(args[i], adm[i].callback_args@);
            }
        },
        _ => {},
    }
    match ps[3] {
        ParamType::Array(a) => match *a {
            ParamType::Array(b) => {
                match ts[3] {
                    Token::Array(xs) => {
                        assert forall|i: int| 0 <= i < xs.len() implies conforms(
                            #[trigger] xs@[i],
                            *a,
                        ) by {
                            assert(is_address_token(bots[i], adm[i].bot@));
                            assert(bot_error(adm[i]) is None);
                            assert(bot_shape_ok(adm[i]));
                            lemma_swap_list_conforms(swaps[i], adm[i].swap_infos@, *b);
                        }
                    },
                    _ => {},
                }
            },
            _ => {},
        },
        _ => {},
    }
    assert forall|k: int| 0 <= k < ts.len() implies conforms(#[trigger] ts[k], ps[k]) by {}
}

/// The argument list of a create request fits the parameter types of
/// `create_next_bot`.
pub proof fn lemma_create_tokens_conform(
    ts: Seq<Token>,
    bot_id: Word,
    callbacker: Seq<char>,
    callback_args: Seq<Word>,
    remaining_count: Word,
)
    requires
        ts.len() == 4,
        is_uint_token(ts[0], bot_id),
        is_address_token(ts[1], callbacker),
        is_uint_list_token(ts[2], callback_args),
        is_uint_token(ts[3], remaining_count),
    ensures
        all_conform(ts, create_next_bot_params()),
{
    lemma_uint_list_conforms(ts[2], callback_args);
    let ps = create_next_bot_params();
    assert forall|k: int| 0 <= k < ts.len() implies conforms(#[trigger] ts[k], ps[k]) by {}
}

} // verus!
