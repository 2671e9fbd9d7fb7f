//! The Etherscan client: which request asks for an address's ApeCoin balance,
//! and what is made of the answer.
use vstd::prelude::*;
use vstd::string::StringSliceAdditionalSpecFns;
use vstd::utf8::{decode_utf8, encode_utf8, is_char_boundary};
use crate::text::{byte_slice, concatenate};

verus! {

/// A client of the Etherscan API, holding the API token (empty when none).
pub struct EtherscanClient {
    token: String,
}

impl View for EtherscanClient {
    type V = Seq<char>;

    /// The API token.
    closed spec fn view(&self) -> Seq<char> {
        self.token@
    }
}

/// The request for a balance, up to the address.
pub open spec fn balance_url_head() -> Seq<char> {
    "https://api.etherscan.io/api?module=account&action=tokenbalance&contractaddress=0x4d224452801aced8b2f0aebe155379bb5d594381&address="@
}

/// The part of the balance request between the address and the token.
pub open spec fn balance_url_middle() -> Seq<char> {
    "&tag=latest&apikey="@
}

/// The request that asks for the ApeCoin balance of `address` with `token`.
pub open spec fn balance_url_spec(address: Seq<char>, token: Seq<char>) -> Seq<char> {
    balance_url_head() + address + balance_url_middle() + token
}

impl EtherscanClient {
    /// A client with the given token, or with the empty token when there is none.
    pub fn new(token: Option<String>) -> (r: EtherscanClient)
        ensures
            r@ == match token {
                Some(t) => t@,
                None => Seq::<char>::empty(),
            },
    {
        if let Some(token) = token {
            EtherscanClient { token }
        } else {
            EtherscanClient { token: String::new() }
        }
    }

    /// The API token.
    pub fn token(&self) -> (r: &str)
        ensures
            r@ == self@,
    {
        self.token.as_str()
    }

    /// The URL that asks Etherscan for the ApeCoin balance of `address`.
    pub fn balance_url(&self, address: &str) -> (r: String)
        ensures
            r@ == balance_url_spec(address@, self@),
    {
        let head = "https://api.etherscan.io/api?module=account&action=tokenbalance&contractaddress=0x4d224452801aced8b2f0aebe155379bb5d594381&address=";
        let middle = "&tag=latest&apikey=";
        let mut url = concatenate(head, address);
        url.append(middle);
        url.append(self.token.as_str());
        url
    }
}


/// The balance in the answer can be cut: it is at least 15 bytes long and the cut
/// 15 bytes before its end falls on a character boundary.
pub open spec fn balance_cut_defined(result: Seq<char>) -> bool {
    let b = encode_utf8(result);
    b.len() >= 15 && is_char_boundary(b, b.len() - 15)
}

/// The balance with its last 15 digits dropped (the token has 18 decimals; the
/// remaining three are divided away by the caller).
pub open spec fn balance_digits_spec(result: Seq<char>) -> Seq<char> {
    let b = encode_utf8(result);
    decode_utf8(b.subrange(0, b.len() - 15))
}

/// What an answer of Etherscan comes to: for status 1 the balance without its
/// last 15 digits, for any other status the answer's message as the error.
pub open spec fn balance_outcome_spec(status: i32, result: Seq<char>, message: Seq<char>) -> Result<
    Seq<char>,
    Seq<char>,
> {
    if status != 1 {
        Err(message)
    } else {
        Ok(balance_digits_spec(result))
    }
}

/// The balance request asks the token-balance action of the account module for
/// the ApeCoin contract, at the latest block, for `address`, with `token`.
pub proof fn lemma_balance_request(address: Seq<char>, token: Seq<char>)
    ensures
        balance_url_spec(address, token)
            == "https://api.etherscan.io/api?module=account&action=tokenbalance&contractaddress=0x4d224452801aced8b2f0aebe155379bb5d594381&address="@
            + address + "&tag=latest&apikey="@ + token,
{
}

/// An answer with a status other than 1 is an error carrying its message; with
/// status 1 it is the balance with its last 15 bytes (digits) dropped.
pub proof fn lemma_balance_outcome(status: i32, result: Seq<char>, message: Seq<char>)
    ensures
        status != 1 ==> balance_outcome_spec(status, result, message) == Err::<Seq<char>, Seq<char>>(message),
        status == 1 && balance_cut_defined(result) ==> (balance_outcome_spec(status, result, message) matches Ok(d)
            && encode_utf8(d) == encode_utf8(result).subrange(0, encode_utf8(result).len() - 15)),
{
    if status == 1 && balance_cut_defined(result) {
        let b = encode_utf8(result);
        vstd::utf8::encode_utf8_valid_utf8(result);
        vstd::utf8::valid_utf8_split(b, b.len() - 15);
        vstd::utf8::decode_utf8_encode_utf8(b.subrange(0, b.len() - 15));
    }
}

/// Whether `balance_cut_defined` holds of `result`.
pub fn balance_cut_ok(result: &str) -> (b: bool)
    ensures
        b == balance_cut_defined(result@),
{
    let bytes = result.as_bytes();
    let n = bytes.len();
    if n < 15 {
        false
    } else {
        result.is_char_boundary(n - 15)
    }
}

/// Reads an answer of Etherscan to a balance request.
pub fn balance_outcome(status: i32, result: &str, message: &str) -> (r: Result<String, String>)
    requires
        status == 1 ==> balance_cut_defined(result@),
    ensures
        match (r, balance_outcome_spec(status, result@, message@)) {
            (Ok(d), Ok(e)) => d@ == e,
            (Err(m), Err(e)) => m@ == e,
            _ => false,
        },
{
    if status != 1 {
        Err(String::from_str(message))
    } else {
        let bytes = result.as_bytes();
        let n = bytes.len();
        proof {
            vstd::utf8::encode_utf8_valid_utf8(result@);
            vstd::utf8::is_char_boundary_start_end_of_seq(result.spec_bytes());
        }
        Ok(String::from_str(byte_slice(result, 0, n - 15)))
    }
}

} // verus!
