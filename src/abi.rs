//! Argument trees of the destination chain's calling convention, built from
//! plain request values, and the two encoding steps (selector, argument list)
//! that ethabi performs on them.
use vstd::prelude::*;
use ethabi::ethereum_types::{H160, U256};
use ethabi::{ParamType, Token};
use std::str::FromStr;

verus! {

#[verifier::external_type_specification]
pub struct ExH160(H160);

#[verifier::external_type_specification]
pub struct ExU256(U256);

#[verifier::external_type_specification]
pub struct ExParamType(ParamType);

#[verifier::external_type_specification]
pub struct ExToken(Token);

/// A 256-bit unsigned integer, as 32 big-endian bytes.
pub type Word = [u8; 32];

// ---------------------------------------------------------------------------
// Numbers

/// The number that a big-endian byte sequence spells.
pub open spec fn be_value(b: Seq<u8>) -> nat
    decreases b.len(),
{
    if b.len() == 0 {
        0
    } else {
        be_value(b.drop_last()) * 256 + b.last() as nat
    }
}

/// The number held by the four little-endian 64-bit limbs of a `U256`.
pub open spec fn u256_value(u: U256) -> nat {
    u.0[0] as nat + u.0[1] as nat * 0x1_0000_0000_0000_0000 + u.0[2] as nat
        * 0x1_0000_0000_0000_0000_0000_0000_0000_0000 + u.0[3] as nat
        * 0x1_0000_0000_0000_0000_0000_0000_0000_0000_0000_0000_0000_0000
}

/// The decimal digit for `d < 10`.
pub open spec fn digit_char(d: nat) -> char {
    if d == 0 {
        '0'
    } else if d == 1 {
        '1'
    } else if d == 2 {
        '2'
    } else if d == 3 {
        '3'
    } else if d == 4 {
        '4'
    } else if d == 5 {
        '5'
    } else if d == 6 {
        '6'
    } else if d == 7 {
        '7'
    } else if d == 8 {
        '8'
    } else {
        '9'
    }
}

/// The decimal text of `n`, without leading zeros ("0" for zero).
pub open spec fn decimal_text(n: nat) -> Seq<char>
    decreases n,
{
    if n < 10 {
        seq![digit_char(n)]
    } else {
        decimal_text(n / 10).push(digit_char(n % 10))
    }
}

/// Relies on `U256::from_big_endian`: the 32 bytes are read as one big-endian
/// number.
#[verifier::external_body]
fn u256_from_word(w: &Word) -> (r: U256)
    ensures
        u256_value(r) == be_value(w@),
{
    U256::from_big_endian(w)
}

/// Relies on cosmwasm_std's `Uint256::from_be_bytes` and its `Display`: the
/// decimal text of the big-endian number.
#[verifier::external_body]
pub(crate) fn word_decimal(w: &Word) -> (r: String)
    ensures
        r@ == decimal_text(be_value(w@)),
{
    cosmwasm_std::Uint256::from_be_bytes(*w).to_string()
}

// ---------------------------------------------------------------------------
// Addresses

pub open spec fn is_blank(c: char) -> bool {
    c == ' ' || c == '\r' || c == '\n' || c == '\t'
}

pub open spec fn is_hex_digit(c: char) -> bool {
    ('0' <= c && c <= '9') || ('a' <= c && c <= 'f') || ('A' <= c && c <= 'F')
}

pub open spec fn hex_value(c: char) -> nat {
    if '0' <= c && c <= '9' {
        (c as nat - '0' as nat) as nat
    } else if 'a' <= c && c <= 'f' {
        (c as nat - 'a' as nat + 10) as nat
    } else {
        (c as nat - 'A' as nat + 10) as nat
    }
}

/// The text with one leading "0x" removed, if it has one.
pub open spec fn strip_hex_prefix(s: Seq<char>) -> Seq<char> {
    if s.len() >= 2 && s[0] == '0' && s[1] == 'x' {
        s.subrange(2, s.len() as int)
    } else {
        s
    }
}

/// The characters of an address text that carry digits: blanks are skipped.
pub open spec fn address_digits(s: Seq<char>) -> Seq<char> {
    strip_hex_prefix(s).filter(|c: char| !is_blank(c))
}

/// An address text: an optional "0x", then exactly 40 hex digits, blanks
/// anywhere after the prefix ignored.
pub open spec fn is_address_text(s: Seq<char>) -> bool {
    let d = address_digits(s);
    d.len() == 40 && forall|i: int| 0 <= i < 40 ==> is_hex_digit(#[trigger] d[i])
}

/// The 20 bytes that an address text spells, two digits per byte.
pub open spec fn address_bytes(s: Seq<char>) -> Seq<u8> {
    let d = address_digits(s);
    Seq::new(20, |i: int| (hex_value(d[2 * i]) * 16 + hex_value(d[2 * i + 1])) as u8)
}

/// Relies on `H160::from_str` (fixed-hash): it strips one "0x", skips blanks,
/// and reads exactly 20 bytes of hex digits, failing on anything else.
#[verifier::external_body]
fn parse_h160(s: &str) -> (r: Option<H160>)
    ensures
        r is Some <==> is_address_text(s@),
        r matches Some(a) ==> a.0@ == address_bytes(s@),
{
    H160::from_str(s).ok()
}

// ---------------------------------------------------------------------------
// Encoding

/// The 4-byte selector of a function, as ethabi derives it from the function's
/// name and parameter types.
pub uninterp spec fn selector_of(name: Seq<char>, params: Seq<ParamType>) -> Seq<u8>;

/// The encoding of an argument list under the calling convention, as ethabi
/// writes it.
pub uninterp spec fn abi_encoding(tokens: Seq<Token>) -> Seq<u8>;

/// Relies on `ethabi::short_signature`: the first four bytes of the Keccak-256
/// hash of the canonical signature, a function of name and types alone.
#[verifier::external_body]
fn short_signature(name: &str, params: &Vec<ParamType>) -> (r: [u8; 4])
    ensures
        r@ == selector_of(name@, params@),
        r@.len() == 4,
{
    ethabi::short_signature(name, params)
}

/// Relies on `ethabi::encode`: the head/tail encoding of the argument list, a
/// function of the tokens alone.
#[verifier::external_body]
fn encode_tokens(tokens: &Vec<Token>) -> (r: Vec<u8>)
    ensures
        r@ == abi_encoding(tokens@),
{
    ethabi::encode(tokens)
}

/// Whether a token fits a parameter type: the same kind at every level, fixed
/// arrays with their declared length, tuples with one token per member.
pub open spec fn conforms(t: Token, p: ParamType) -> bool
    decreases t,
{
    match t {
        Token::Address(_) => p == ParamType::Address,
        Token::Uint(_) => p is Uint,
        Token::Array(ts) => match p {
            ParamType::Array(inner) => forall|i: int|
                0 <= i < ts.len() ==> conforms(#[trigger] ts@[i], *inner),
            _ => false,
        },
        Token::FixedArray(ts) => match p {
            ParamType::FixedArray(inner, n) => ts.len() == n && forall|i: int|
                0 <= i < ts.len() ==> conforms(#[trigger] ts@[i], *inner),
            _ => false,
        },
        Token::Tuple(ts) => match p {
            ParamType::Tuple(ps) => ts.len() == ps.len() && forall|i: int|
                0 <= i < ts.len() ==> conforms(#[trigger] ts@[i], ps@[i]),
            _ => false,
        },
        _ => false,
    }
}

/// An argument list fits a parameter list, member by member.
pub open spec fn all_conform(ts: Seq<Token>, ps: Seq<ParamType>) -> bool {
    &&& ts.len() == ps.len()
    &&& forall|i: int| 0 <= i < ts.len() ==> conforms(#[trigger] ts[i], ps[i])
}

/// Call data: the selector followed by the encoded arguments.
pub open spec fn call_data(name: Seq<char>, params: Seq<ParamType>, tokens: Seq<Token>) -> Seq<u8> {
    selector_of(name, params) + abi_encoding(tokens)
}

/// `payload` is the call data of `name` with parameter types `params` on
/// `tokens`: its first four bytes are the selector, the rest is the encoded
/// argument list.
pub open spec fn is_call_data(
    payload: Seq<u8>,
    name: Seq<char>,
    params: Seq<ParamType>,
    tokens: Seq<Token>,
) -> bool {
    &&& payload.len() >= 4
    &&& payload.subrange(0, 4) == selector_of(name, params)
    &&& payload.subrange(4, payload.len() as int) == abi_encoding(tokens)
}

/// Builds the call data of function `name` with parameter types `params` on
/// the argument list `tokens`.
pub fn encode_call(name: &str, params: &Vec<ParamType>, tokens: &Vec<Token>) -> (r: Vec<u8>)
    ensures
        r@ == call_data(name@, params@, tokens@),
        is_call_data(r@, name@, params@, tokens@),
{
    let sel = short_signature(name, params);
    let body = encode_tokens(tokens);
    let mut out: Vec<u8> = Vec::new();
    let mut i: usize = 0;
    while i < 4
        invariant
            0 <= i <= 4,
            sel@.len() == 4,
            out@ == sel@.subrange(0, i as int),
        decreases 4 - i,
    {
        out.push(sel[i]);
        i = i + 1;
    }
    let mut j: usize = 0;
    while j < body.len()
        invariant
            0 <= j <= body@.len(),
            out@ == sel@ + body@.subrange(0, j as int),
        decreases body@.len() - j,
    {
        out.push(body[j]);
        j = j + 1;
    }
    assert(sel@.subrange(0, 4) =~= sel@);
    assert(body@.subrange(0, body@.len() as int) =~= body@);
    assert(out@.subrange(0, 4) =~= sel@);
    assert(out@.subrange(4, out@.len() as int) =~= body@);
    out
}

// ---------------------------------------------------------------------------
// Tokens

pub open spec fn is_address_token(t: Token, s: Seq<char>) -> bool {
    match t {
        Token::Address(a) => a.0@ == address_bytes(s),
        _ => false,
    }
}

pub open spec fn is_uint_token(t: Token, w: Word) -> bool {
    match t {
        Token::Uint(u) => u256_value(u) == be_value(w@),
        _ => false,
    }
}

/// The elements of an array or tuple token.
pub open spec fn items(t: Token) -> Seq<Token> {
    match t {
        Token::Array(ts) => ts@,
        Token::FixedArray(ts) => ts@,
        Token::Tuple(ts) => ts@,
        _ => Seq::empty(),
    }
}

pub open spec fn addresses_match(ts: Seq<Token>, ss: Seq<String>) -> bool {
    &&& ts.len() == ss.len()
    &&& forall|i: int| 0 <= i < ts.len() ==> is_address_token(#[trigger] ts[i], ss[i]@)
}

pub open spec fn uints_match(ts: Seq<Token>, ws: Seq<Word>) -> bool {
    &&& ts.len() == ws.len()
    &&& forall|i: int| 0 <= i < ts.len() ==> is_uint_token(#[trigger] ts[i], ws[i])
}

/// Every text is an address text.
pub open spec fn all_address_texts(ss: Seq<String>) -> bool {
    forall|i: int| 0 <= i < ss.len() ==> is_address_text(#[trigger] ss[i]@)
}

/// The token of one address; `None` when the text is not an address.
pub fn address_token(s: &String) -> (r: Option<Token>)
    ensures
        r is Some <==> is_address_text(s@),
        r matches Some(t) ==> is_address_token(t, s@),
{
    match parse_h160(s.as_str()) {
        Some(a) => Some(Token::Address(a)),
        None => None,
    }
}

/// The token of one 256-bit integer.
pub fn uint_token(w: &Word) -> (r: Token)
    ensures
        is_uint_token(r, *w),
{
    Token::Uint(u256_from_word(w))
}

/// The tokens of a list of addresses, in order; `None` when one of them is not
/// an address.
pub fn address_tokens(ss: &Vec<String>) -> (r: Option<Vec<Token>>)
    ensures
        r is Some <==> all_address_texts(ss@),
        r matches Some(ts) ==> addresses_match(ts@, ss@),
{
    let mut out: Vec<Token> = Vec::new();
    let mut i: usize = 0;
    while i < ss.len()
        invariant
            0 <= i <= ss@.len(),
            addresses_match(out@, ss@.subrange(0, i as int)),
            all_address_texts(ss@.subrange(0, i as int)),
        decreases ss@.len() - i,
    {
        match address_token(&ss[i]) {
            Some(t) => {
                out.push(t);
            },
            None => {
                assert(!is_address_text(ss@[i as int]@));
                return None;
            },
        }
        i = i + 1;
        assert(forall|k: int| 0 <= k < i ==> ss@.subrange(0, i as int)[k] == ss@[k]);
    }
    assert(ss@.subrange(0, ss@.len() as int) =~= ss@);
    Some(out)
}

/// The tokens of a list of integers, in order.
pub fn uint_tokens(ws: &Vec<Word>) -> (r: Vec<Token>)
    ensures
        uints_match(r@, ws@),
{
    let mut out: Vec<Token> = Vec::new();
    let mut i: usize = 0;
    while i < ws.len()
        invariant
            0 <= i <= ws@.len(),
            uints_match(out@, ws@.subrange(0, i as int)),
        decreases ws@.len() - i,
    {
        let t = uint_token(&ws[i]);
        out.push(t);
        i = i + 1;
    }
    assert(ws@.subrange(0, ws@.len() as int) =~= ws@);
    out
}

} // verus!
