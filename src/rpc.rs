use crate::crypto::{sig_size, verify_outcome, CryptoError, Signature};
use crate::digest::{hex_digit, sha256_of};
use crate::transaction::{canonical_bytes, Transaction};
use vstd::prelude::*;
use vstd::string::StringExecFns;

verus! {

/// Chain id of shard zero; shard `s` answers `BASE_CHAIN_ID + s`.
pub const BASE_CHAIN_ID: u64 = 31337;

/// JSON-RPC error codes.
pub const METHOD_NOT_FOUND: i32 = -32601;
pub const INVALID_PARAMS: i32 = -32602;
pub const DOMAIN_ERROR: i32 = -32000;

/// The answer to one JSON-RPC call: a result string or an error object.
#[derive(Debug, Clone, PartialEq, Eq)]
pub enum RpcReply {
    Success(String),
    Failure { code: i32, message: String },
}

/// Lowercase hexadecimal digits of `n`, without leading zeros.
pub open spec fn hex_number(n: nat) -> Seq<char>
    decreases n,
{
    if n < 16 {
        seq![hex_digit(n)]
    } else {
        hex_number(n / 16).push(hex_digit(n % 16))
    }
}

fn hex_digit_str(d: u64) -> (r: &'static str)
    requires
        d < 16,
    ensures
        r@ == seq![hex_digit(d as nat)],
{
    proof {
        reveal_strlit("0"); reveal_strlit("1"); reveal_strlit("2"); reveal_strlit("3");
        reveal_strlit("4"); reveal_strlit("5"); reveal_strlit("6"); reveal_strlit("7");
        reveal_strlit("8"); reveal_strlit("9"); reveal_strlit("a"); reveal_strlit("b");
        reveal_strlit("c"); reveal_strlit("d"); reveal_strlit("e"); reveal_strlit("f");
    }
    if d == 0 { "0" } else if d == 1 { "1" } else if d == 2 { "2" } else if d == 3 { "3" }
    else if d == 4 { "4" } else if d == 5 { "5" } else if d == 6 { "6" } else if d == 7 { "7" }
    else if d == 8 { "8" } else if d == 9 { "9" } else if d == 10 { "a" } else if d == 11 { "b" }
    else if d == 12 { "c" } else if d == 13 { "d" } else if d == 14 { "e" } else { "f" }
}

fn append_hex(s: &mut String, n: u64)
    ensures
        final(s)@ == old(s)@ + hex_number(n as nat),
    decreases n,
{
    if n >= 16 {
        append_hex(s, n / 16);
    }
    s.append(hex_digit_str(n % 16));
    assert(old(s)@ + hex_number(n as nat) =~= if n >= 16 {
        old(s)@ + hex_number((n / 16) as nat) + seq![hex_digit((n % 16) as nat)]
    } else {
        old(s)@ + seq![hex_digit((n % 16) as nat)]
    });
}

fn same_text(a: &str, b: &str) -> (r: bool)
    ensures
        r == (a@ == b@),
{
    let x = a.to_owned();
    let y = b.to_owned();
    x == y
}

/// The chain id of a shard, as `0x` and lowercase hexadecimal.
pub fn chain_id(shard_id: u8) -> (r: String)
    ensures
        r@ == "0x"@ + hex_number((BASE_CHAIN_ID + shard_id) as nat),
{
    let mut s = String::from_str("0x");
    append_hex(&mut s, BASE_CHAIN_ID + shard_id as u64);
    s
}

/// Whether a signature's size, with a 32-byte message, fits in memory sizes.
fn signature_fits(sig: &Signature) -> (r: bool)
    ensures
        r == (sig_size(*sig) + 32 <= usize::MAX),
    decreases *sig,
{
    match sig {
        Signature::ECDSA { .. } => true,
        Signature::Dilithium { data } => data.len() <= usize::MAX - 32,
        Signature::SPHINCSPlus { data } => data.len() <= usize::MAX - 32,
        Signature::Hybrid { ecdsa, pq } => {
            if !signature_fits(ecdsa) || !signature_fits(pq) {
                return false;
            }
            let a = ecdsa.size();
            let b = pq.size();
            a <= usize::MAX - 32 - b
        },
    }
}

/// The answer owed to `eth_sendRawTransaction` for a decoded transaction,
/// or for the reason it could not be decoded.
pub open spec fn raw_transaction_reply(decoded: Result<Transaction, String>, r: RpcReply) -> bool {
    match decoded {
        Err(_) => r matches RpcReply::Failure { code, .. } && code == INVALID_PARAMS,
        Ok(tx) => if sig_size(tx.signature) + 32 > usize::MAX {
            r matches RpcReply::Failure { code, .. } && code == INVALID_PARAMS
        } else {
            match verify_outcome(tx.signature, sha256_of(canonical_bytes(tx)), tx.public_key) {
                Ok(true) => r matches RpcReply::Success(v) && v@ == "0x1"@,
                _ => r matches RpcReply::Failure { code, .. } && code == DOMAIN_ERROR,
            }
        },
    }
}

/// Answers `eth_sendRawTransaction` for a decoded transaction, or for the
/// reason it could not be decoded: `0x1` when its signature verifies over
/// its hash, a domain error when it does not or cannot be checked, and an
/// invalid-parameters error for an undecodable transaction.
pub fn send_raw_transaction(decoded: Result<Transaction, String>) -> (r: RpcReply)
    ensures
        raw_transaction_reply(decoded, r),
{
    match decoded {
        Err(reason) => {
            let mut message = String::from_str("Invalid transaction: ");
            message.append(reason.as_str());
            RpcReply::Failure { code: INVALID_PARAMS, message }
        },
        Ok(tx) => {
            if !signature_fits(&tx.signature) {
                return RpcReply::Failure { code: INVALID_PARAMS, message: String::from_str("Signature too large") };
            }
            match tx.verify_signature() {
                Ok(true) => RpcReply::Success(String::from_str("0x1")),
                Ok(false) => RpcReply::Failure { code: DOMAIN_ERROR, message: String::from_str("Invalid signature") },
                Err(e) => {
                    let mut message = String::from_str("Signature verification failed: ");
                    let detail = e.message();
                    message.append(detail.as_str());
                    RpcReply::Failure { code: DOMAIN_ERROR, message }
                },
            }
        },
    }
}

} // verus!

verus! {

/// Answers a JSON-RPC call: the client version, the chain id, or the
/// verdict on a submitted transaction, decoded from the call's parameters
/// by the caller (`params`); any other method is not found.
pub fn handle_request(method: &str, shard_id: u8, params: Result<Transaction, String>) -> (r: RpcReply)
    ensures
        method@ == "web3_clientVersion"@ ==> (r matches RpcReply::Success(v) && v@ == "Ionova/v0.1.0"@),
        method@ == "eth_chainId"@ ==> (r matches RpcReply::Success(v) && v@ == "0x"@ + hex_number((BASE_CHAIN_ID + shard_id) as nat)),
        method@ == "eth_sendRawTransaction"@ ==> raw_transaction_reply(params, r),
        method@ != "web3_clientVersion"@ && method@ != "eth_chainId"@ && method@ != "eth_sendRawTransaction"@
            ==> (r matches RpcReply::Failure { code, .. } && code == METHOD_NOT_FOUND),
{
    proof {
        reveal_strlit("web3_clientVersion");
        reveal_strlit("eth_chainId");
        reveal_strlit("eth_sendRawTransaction");
        assert("eth_chainId"@.len() != "web3_clientVersion"@.len());
        assert("eth_sendRawTransaction"@.len() != "web3_clientVersion"@.len());
        assert("eth_sendRawTransaction"@.len() != "eth_chainId"@.len());
    }
    if same_text(method, "web3_clientVersion") {
        RpcReply::Success(String::from_str("Ionova/v0.1.0"))
    } else if same_text(method, "eth_chainId") {
        RpcReply::Success(chain_id(shard_id))
    } else if same_text(method, "eth_sendRawTransaction") {
        send_raw_transaction(params)
    } else {
        RpcReply::Failure { code: METHOD_NOT_FOUND, message: String::from_str("Method not found") }
    }
}

} // verus!
