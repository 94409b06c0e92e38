//! Load generation: the sending accounts and the round-robin stream of
//! signed EIP-1559 transfers that stress a devnet.

use crate::evm::{
    ecdsa_recoverable_signature, eip1559_transfer_payload, eip1559_transfer_typed_encoding, evm_address,
    secret_public_key, sign_prehash, signed_transfer_typed_encoding, transfer_signing_payload, Evm,
};
use crate::txpool::envelope::{sha3_keccak256, sha3_keccak256_digest};
use crate::hexstr::{hex_chars, hex_encode};
use crate::text::push_str;
use vstd::arithmetic::div_mod::{lemma_add_mod_noop, lemma_fundamental_div_mod, lemma_fundamental_div_mod_converse};
use vstd::prelude::*;

verus! {

/// Gas limit of each load transfer.
pub const LOAD_GAS_LIMIT: u64 = 21000;

/// One past the largest `u64`.
pub open spec fn u64_modulus() -> nat {
    0x1_0000_0000_0000_0000
}

/// The secret key of load account `seed`: 31 zero bytes, then the seed.
pub open spec fn account_secret(seed: u8) -> Seq<u8> {
    Seq::new(31, |_i: int| 0u8).push(seed)
}

/// The address every load transfer goes to: twenty `0xBB` bytes.
pub open spec fn load_receiver() -> Seq<u8> {
    Seq::new(20, |_i: int| 0xBBu8)
}

/// The value of every load transfer: one wei, as 32 big-endian bytes.
pub open spec fn load_value() -> Seq<u8> {
    Seq::new(31, |_i: int| 0u8).push(1u8)
}

/// The nonce after `n`, as an atomic counter wraps.
pub open spec fn nonce_succ(n: u64) -> u64 {
    if n == u64::MAX {
        0
    } else {
        (n + 1) as u64
    }
}

/// The nonce `k` steps after `start`, wrapping.
pub open spec fn wrapped_nonce(start: u64, k: nat) -> u64 {
    ((start + k) % (u64_modulus() as int)) as u64
}

/// The secret key of load account `seed`.
pub fn seed_secret(seed: u8) -> (s: [u8; 32])
    ensures
        s@ == account_secret(seed),
{
    let mut s = [0u8; 32];
    s[31] = seed;
    assert(s@ =~= account_secret(seed));
    s
}

/// The address load transfers go to.
pub fn receiver_address() -> (a: [u8; 20])
    ensures
        a@ == load_receiver(),
{
    let a = [0xBBu8; 20];
    assert(a@ =~= load_receiver());
    a
}

/// The value of a load transfer.
pub fn transfer_value() -> (v: [u8; 32])
    ensures
        v@ == load_value(),
{
    let mut v = [0u8; 32];
    v[31] = 1;
    assert(v@ =~= load_value());
    v
}

/// The EIP-2718 encoding of a simple EIP-1559 transfer (zero fees, no
/// data) signed with a secret key: the signing payload hashed with
/// Keccak-256 and signed recoverably; none where the secret is no key.
pub open spec fn typed_signed_transfer(
    secret: Seq<u8>,
    chain_id: u64,
    to: Seq<u8>,
    value: Seq<u8>,
    nonce: u64,
    gas_limit: u64,
) -> Option<Seq<u8>> {
    let prehash = sha3_keccak256_digest(eip1559_transfer_payload(chain_id, to, value, nonce, gas_limit));
    match ecdsa_recoverable_signature(secret, prehash) {
        Some((a, b, odd)) => Some(eip1559_transfer_typed_encoding(chain_id, to, value, nonce, gas_limit, a, b, odd)),
        None => None,
    }
}

/// Signs a simple EIP-1559 transfer and returns its EIP-2718 encoding, as
/// the load is sent; none where the secret is no key.
pub fn sign_eip1559_transfer(
    secret: &[u8; 32],
    chain_id: u64,
    to: &[u8; 20],
    value: &[u8; 32],
    nonce: u64,
    gas_limit: u64,
) -> (r: Option<Vec<u8>>)
    ensures
        match r {
            Some(e) => typed_signed_transfer(secret@, chain_id, to@, value@, nonce, gas_limit) == Some(e@),
            None => typed_signed_transfer(secret@, chain_id, to@, value@, nonce, gas_limit) is None,
        },
{
    let payload = transfer_signing_payload(chain_id, to, value, nonce, gas_limit);
    let prehash = sha3_keccak256(payload.as_slice());
    match sign_prehash(secret, &prehash) {
        Some((a, b, odd)) => Some(signed_transfer_typed_encoding(chain_id, to, value, nonce, gas_limit, &a, &b, odd)),
        None => None,
    }
}

/// A sending account: its secret key, its address, and the nonce its next
/// transfer carries.
#[derive(Debug, Clone, Copy)]
pub struct LoadAccount {
    /// The secp256k1 secret key.
    pub secret: [u8; 32],
    /// The account's address.
    pub address: [u8; 20],
    /// The next nonce.
    pub nonce: u64,
}

impl LoadAccount {
    /// The account with seed `seed`, at nonce zero; none where the seed's
    /// secret is no key.
    pub fn new(seed: u8) -> (r: Option<LoadAccount>)
        ensures
            match r {
                Some(a) => {
                    &&& a.secret@ == account_secret(seed)
                    &&& a.nonce == 0
                    &&& secret_public_key(account_secret(seed)) matches Some(k) && a.address@ == evm_address(k)
                },
                None => secret_public_key(account_secret(seed)) is None,
            },
    {
        let secret = seed_secret(seed);
        match Evm::address_from_key(&secret) {
            Some(address) => Some(LoadAccount { secret, address, nonce: 0 }),
            None => None,
        }
    }

    /// Takes the next nonce, advancing the counter (wrapping past the
    /// largest `u64`).
    pub fn next_nonce(&mut self) -> (n: u64)
        ensures
            n == old(self).nonce,
            final(self).nonce == nonce_succ(old(self).nonce),
            final(self).secret == old(self).secret,
            final(self).address == old(self).address,
    {
        let n = self.nonce;
        self.nonce = if n == u64::MAX {
            0
        } else {
            n + 1
        };
        n
    }
}

/// The load's accounts, with seeds `1..=count` (a seed is taken modulo
/// 256); none where some seed's secret is no key.
pub fn load_accounts(count: usize) -> (r: Option<Vec<LoadAccount>>)
    ensures
        match r {
            Some(v) => {
                &&& v.len() == count
                &&& forall|i: int|
                    #![trigger v[i]]
                    0 <= i < count ==> {
                        let seed = ((i + 1) % 256) as u8;
                        &&& v[i].secret@ == account_secret(seed)
                        &&& v[i].nonce == 0
                        &&& secret_public_key(account_secret(seed)) matches Some(k) && v[i].address@ == evm_address(k)
                    }
            },
            None => exists|i: int|
                0 <= i < count && #[trigger] secret_public_key(account_secret(((i + 1) % 256) as u8)) is None,
        },
{
    let mut v: Vec<LoadAccount> = Vec::new();
    let mut i: usize = 0;
    while i < count
        invariant
            0 <= i <= count,
            v.len() == i,
            forall|j: int|
                #![trigger v[j]]
                0 <= j < i ==> {
                    let seed = ((j + 1) % 256) as u8;
                    &&& v[j].secret@ == account_secret(seed)
                    &&& v[j].nonce == 0
                    &&& secret_public_key(account_secret(seed)) matches Some(k) && v[j].address@ == evm_address(k)
                },
        decreases count - i,
    {
        let seed = ((i % 256 + 1) % 256) as u8;
        assert(seed == ((i + 1) % 256) as u8);
        match LoadAccount::new(seed) {
            Some(a) => v.push(a),
            None => {
                assert(secret_public_key(account_secret(((i + 1) % 256) as u8)) is None);
                return None;
            },
        }
        i = i + 1;
    }
    Some(v)
}

/// One transfer of the load: the account that sends it, its nonce, and its
/// signed encoding (none where the account's secret is no key).
#[derive(Debug, Clone)]
pub struct LoadTransfer {
    /// Index of the sending account.
    pub account: usize,
    /// The transfer's nonce.
    pub nonce: u64,
    /// The signed transaction, RLP encoded.
    pub raw: Option<Vec<u8>>,
}

/// `t.raw` is the signed encoding of a load transfer with `t`'s nonce from
/// the account with this secret.
pub open spec fn load_transfer_ok(t: LoadTransfer, secret: Seq<u8>, chain_id: u64) -> bool {
    match t.raw {
        Some(e) => typed_signed_transfer(secret, chain_id, load_receiver(), load_value(), t.nonce, LOAD_GAS_LIMIT)
            == Some(e@),
        None => typed_signed_transfer(secret, chain_id, load_receiver(), load_value(), t.nonce, LOAD_GAS_LIMIT)
            is None,
    }
}

/// How many of the first `total` transfers account `a` of `n` sends.
pub open spec fn sends_of(total: nat, n: nat, a: nat) -> nat {
    total / n + if a < total % n {
        1nat
    } else {
        0nat
    }
}

proof fn lemma_wrapped_succ(start: u64, k: nat)
    ensures
        nonce_succ(wrapped_nonce(start, k)) == wrapped_nonce(start, k + 1),
{
    let m = u64_modulus() as int;
    lemma_add_mod_noop(start + k, 1, m);
    assert(1int % m == 1);
}

/// Signs `total` transfers round-robin over the accounts: transfer `i` is
/// sent by account `i % n` and takes that account's next nonce.
pub fn load_transfers(accounts: &mut Vec<LoadAccount>, chain_id: u64, total: u64) -> (r: Vec<LoadTransfer>)
    requires
        old(accounts).len() > 0,
    ensures
        final(accounts).len() == old(accounts).len(),
        r.len() == total,
        forall|i: int|
            #![trigger r[i]]
            0 <= i < total ==> {
                let a = i % (old(accounts).len() as int);
                &&& r[i].account == a
                &&& r[i].nonce == wrapped_nonce(old(accounts)[a].nonce, (i / (old(accounts).len() as int)) as nat)
                &&& load_transfer_ok(r[i], old(accounts)[a].secret@, chain_id)
            },
        forall|a: int|
            #![trigger final(accounts)[a]]
            0 <= a < old(accounts).len() ==> {
                &&& final(accounts)[a].secret == old(accounts)[a].secret
                &&& final(accounts)[a].address == old(accounts)[a].address
                &&& final(accounts)[a].nonce == wrapped_nonce(
                    old(accounts)[a].nonce,
                    sends_of(total as nat, old(accounts).len() as nat, a as nat),
                )
            },
{
    let n = accounts.len();
    let ghost start = old(accounts)@;
    let to = receiver_address();
    let value = transfer_value();
    let mut r: Vec<LoadTransfer> = Vec::new();
    let mut i: u64 = 0;
    let ghost mut q: nat = 0;
    let ghost mut rem: nat = 0;
    while i < total
        invariant
            n == accounts.len(),
            n == start.len(),
            n > 0,
            start == old(accounts)@,
            to@ == load_receiver(),
            value@ == load_value(),
            0 <= i <= total,
            r.len() == i,
            i == q * n + rem,
            rem < n,
            forall|j: int|
                #![trigger r[j]]
                0 <= j < i ==> {
                    let a = j % (n as int);
                    &&& r[j].account == a
                    &&& r[j].nonce == wrapped_nonce(start[a].nonce, (j / (n as int)) as nat)
                    &&& load_transfer_ok(r[j], start[a].secret@, chain_id)
                },
            forall|a: int|
                #![trigger accounts[a]]
                0 <= a < n ==> {
                    &&& accounts[a].secret == start[a].secret
                    &&& accounts[a].address == start[a].address
                    &&& accounts[a].nonce == wrapped_nonce(
                        start[a].nonce,
                        q + if a < rem {
                            1nat
                        } else {
                            0nat
                        },
                    )
                },
        decreases total - i,
    {
        proof {
            lemma_fundamental_div_mod_converse(i as int, n as int, q as int, rem as int);
        }
        let a = (i % (n as u64)) as usize;
        assert(a == rem);
        let mut account = accounts[a];
        let nonce = account.next_nonce();
        let raw = sign_eip1559_transfer(&account.secret, chain_id, &to, &value, nonce, LOAD_GAS_LIMIT);
        accounts.set(a, account);
        r.push(LoadTransfer { account: a, nonce, raw });
        proof {
            lemma_wrapped_succ(start[a as int].nonce, q);
            assert(r[i as int].nonce == wrapped_nonce(start[a as int].nonce, (i as int / (n as int)) as nat));
            if rem + 1 == n {
                assert((q + 1) * n == q * n + n) by (nonlinear_arith);
                q = q + 1;
                rem = 0;
            } else {
                rem = rem + 1;
            }
        }
        i = i + 1;
    }
    proof {
        lemma_fundamental_div_mod_converse(total as int, n as int, q as int, rem as int);
    }
    r
}

/// The parameter a signed transfer is sent with (`eth_sendRawTransaction`):
/// `0x` and its bytes in hex.
pub fn raw_transaction_param(raw: &[u8]) -> (s: String)
    ensures
        s@ == "0x"@ + hex_chars(raw@),
{
    let mut s = String::from_str("0x");
    let h = hex_encode(raw);
    push_str(&mut s, h.as_str());
    s
}

/// Consecutive transfers of one account carry consecutive nonces: the
/// transfer `n` places after transfer `i` is sent by the same account, with
/// the nonce after.
pub proof fn lemma_load_nonces_consecutive(start: u64, n: nat, i: nat)
    requires
        n > 0,
    ensures
        (i + n) % n == i % n,
        wrapped_nonce(start, (i + n) / n) == nonce_succ(wrapped_nonce(start, i / n)),
{
    lemma_fundamental_div_mod(i as int, n as int);
    let qq = i / n;
    let rr = i % n;
    assert((qq + 1) * n + rr == i + n) by (nonlinear_arith)
        requires
            i == n * qq + rr,
    ;
    lemma_fundamental_div_mod_converse((i + n) as int, n as int, (i / n + 1) as int, (i % n) as int);
    lemma_wrapped_succ(start, i / n);
}

} // verus!
