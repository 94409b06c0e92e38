//! End-to-end test scenarios: the genesis balances, the signed transfers
//! bootstrapped into the first block, and the balances expected once they
//! have run. Balances are 256-bit words (big-endian), as `U256` keeps them.

use crate::evm::{evm_address, secret_public_key, signed_transfer, Evm};
use crate::txpool::envelope::{be_value, u256_from_u128, u256_wrapping_mul, u256_wrapping_sub, word_modulus};
use vstd::arithmetic::div_mod::{lemma_fundamental_div_mod_converse, lemma_small_mod};
use vstd::arithmetic::power2::{lemma2_to64, lemma_pow2_adds, pow2};
use vstd::prelude::*;

verus! {

/// Gas limit of a scenario transfer.
pub const TRANSFER_GAS_LIMIT: u64 = 21000;

/// A secret key made of 32 copies of one byte.
pub open spec fn repeated_key(b: u8) -> Seq<u8> {
    Seq::new(32, |_i: int| b)
}

/// The address of that key, if the bytes are a key.
pub open spec fn seed_address(b: u8) -> Option<Seq<u8>> {
    match secret_public_key(repeated_key(b)) {
        Some(k) => Some(evm_address(k)),
        None => None,
    }
}

/// The 32 big-endian bytes of a value below 2^256.
pub open spec fn word(x: nat) -> Seq<u8> {
    choose|w: Seq<u8>| w.len() == 32 && be_value(w) == x
}

/// A transfer of `amount` wei with the key of byte `from` to `to`, at
/// `nonce`, signed; none where signing fails.
pub open spec fn scenario_transfer(chain_id: u64, from: u8, to: Seq<u8>, amount: nat, nonce: u64) -> Option<Seq<u8>> {
    signed_transfer(repeated_key(from), chain_id, to, word(amount), nonce, TRANSFER_GAS_LIMIT)
}

/// Balances as (address, value) pairs.
pub open spec fn balances(v: Seq<([u8; 20], [u8; 32])>) -> Seq<(Seq<u8>, nat)> {
    v.map_values(|e: ([u8; 20], [u8; 32])| (e.0@, be_value(e.1@)))
}

/// Whether a transfer of `amount` from the key of byte `from` to the
/// account of byte `to` can be made: both are keys and signing succeeds.
pub open spec fn transfer_made(chain_id: u64, from: u8, to: u8, amount: nat, nonce: u64) -> bool {
    match (seed_address(from), seed_address(to)) {
        (Some(_), Some(t)) => scenario_transfer(chain_id, from, t, amount, nonce) is Some,
        _ => false,
    }
}

/// The key byte of the sender of transfer `i` of a multi-transfer.
pub open spec fn sender_seed(i: int) -> u8 {
    ((i + 1) % 256) as u8
}

/// The key byte of the receiver of transfer `i` of a multi-transfer.
pub open spec fn receiver_seed(i: int) -> u8 {
    ((i + 100) % 256) as u8
}

/// The address of a key byte known to be a key.
pub open spec fn seed_account(b: u8) -> Seq<u8> {
    seed_address(b).unwrap()
}

/// The allocations (`initial` to each sender, nothing to each receiver) or
/// expected balances (`initial` to each sender and `received` to each
/// receiver) of the first `n` pairs of a multi-transfer, sender first.
pub open spec fn pair_balances(n: nat, sent: nat, received: nat) -> Seq<(Seq<u8>, nat)>
    decreases n,
{
    if n == 0 {
        Seq::empty()
    } else {
        let i = n - 1;
        pair_balances((n - 1) as nat, sent, received).push((seed_account(sender_seed(i)), sent)).push(
            (seed_account(receiver_seed(i)), received),
        )
    }
}

proof fn lemma_be_value_injective(a: Seq<u8>, b: Seq<u8>)
    requires
        a.len() == b.len(),
        be_value(a) == be_value(b),
    ensures
        a == b,
    decreases a.len(),
{
    if a.len() == 0 {
        assert(a =~= b);
    } else {
        let pa = a.drop_last();
        let pb = b.drop_last();
        lemma_fundamental_div_mod_converse(be_value(a) as int, 256, be_value(pa) as int, a.last() as int);
        lemma_fundamental_div_mod_converse(be_value(b) as int, 256, be_value(pb) as int, b.last() as int);
        lemma_be_value_injective(pa, pb);
        assert(a =~= pa.push(a.last()));
        assert(b =~= pb.push(b.last()));
    }
}

proof fn lemma_word(w: Seq<u8>)
    requires
        w.len() == 32,
    ensures
        word(be_value(w)) == w,
{
    let x = be_value(w);
    assert(w.len() == 32 && be_value(w) == x);
    let c = word(x);
    lemma_be_value_injective(c, w);
}

proof fn lemma_word_modulus_large()
    ensures
        word_modulus() >= 0x1_0000_0000_0000_0000_0000_0000_0000_0000,
{
    lemma2_to64();
    lemma_pow2_adds(64, 64);
    lemma_pow2_adds(128, 128);
    assert(pow2(128) >= 1) by {
        vstd::arithmetic::power2::lemma_pow2_pos(128);
    }
    assert(pow2(128) * pow2(128) >= pow2(128)) by (nonlinear_arith)
        requires
            pow2(128) >= 1,
    ;
}

/// A test scenario: the genesis allocations, the transactions bootstrapped
/// into the first block, and the balances expected after execution.
#[derive(Debug, Clone)]
pub struct TestSetup {
    /// Genesis account allocations.
    pub genesis_alloc: Vec<([u8; 20], [u8; 32])>,
    /// Bootstrap transactions (RLP encoded) to include in the first block.
    pub bootstrap_txs: Vec<Vec<u8>>,
    /// Expected balances after execution.
    pub expected_balances: Vec<([u8; 20], [u8; 32])>,
}

fn repeated_key_address(b: u8) -> (r: ([u8; 32], Option<[u8; 20]>))
    ensures
        r.0@ == repeated_key(b),
        match r.1 {
            Some(a) => seed_address(b) == Some(a@),
            None => seed_address(b) is None,
        },
{
    let key = [b; 32];
    assert(key@ =~= repeated_key(b));
    (key, Evm::address_from_key(&key))
}

impl TestSetup {
    /// A scenario with nothing in it.
    pub fn empty() -> (s: Self)
        ensures
            s.genesis_alloc.len() == 0,
            s.bootstrap_txs.len() == 0,
            s.expected_balances.len() == 0,
    {
        TestSetup { genesis_alloc: Vec::new(), bootstrap_txs: Vec::new(), expected_balances: Vec::new() }
    }

    /// One transfer of 100 wei from the key of ones, funded with 1,000,000
    /// wei, to the account of the key of twos; none where a transfer cannot
    /// be made.
    pub fn simple_transfer(chain_id: u64) -> (r: Option<Self>)
        ensures
            match r {
                Some(s) => match (seed_address(1), seed_address(2)) {
                    (Some(from), Some(to)) => {
                        &&& balances(s.genesis_alloc@) == seq![(from, 1_000_000nat), (to, 0nat)]
                        &&& s.bootstrap_txs.len() == 1
                        &&& scenario_transfer(chain_id, 1, to, 100, 0) == Some(s.bootstrap_txs[0]@)
                        &&& balances(s.expected_balances@) == seq![(from, 999_900nat), (to, 100nat)]
                    },
                    _ => false,
                },
                None => !transfer_made(chain_id, 1, 2, 100, 0),
            },
    {
        let (key, sender) = repeated_key_address(1);
        let (_, receiver) = repeated_key_address(2);
        let (sender, receiver) = match (sender, receiver) {
            (Some(s), Some(t)) => (s, t),
            _ => {
                return None;
            },
        };
        let initial = u256_from_u128(1_000_000);
        let amount = u256_from_u128(100);
        proof {
            lemma_word(amount@);
            lemma_word_modulus_large();
        }
        let tx = match Evm::sign_eip1559_transfer(&key, chain_id, &receiver, &amount, 0, TRANSFER_GAS_LIMIT) {
            Some(t) => t,
            None => {
                return None;
            },
        };
        let left = u256_wrapping_sub(&initial, &amount);
        proof {
            lemma_small_mod(999_900, word_modulus());
        }
        let mut genesis_alloc: Vec<([u8; 20], [u8; 32])> = Vec::new();
        genesis_alloc.push((sender, initial));
        genesis_alloc.push((receiver, u256_from_u128(0)));
        let mut bootstrap_txs: Vec<Vec<u8>> = Vec::new();
        bootstrap_txs.push(tx);
        let mut expected_balances: Vec<([u8; 20], [u8; 32])> = Vec::new();
        expected_balances.push((sender, left));
        expected_balances.push((receiver, amount));
        assert(balances(genesis_alloc@) =~= seq![(sender@, 1_000_000nat), (receiver@, 0nat)]);
        assert(balances(expected_balances@) =~= seq![(sender@, 999_900nat), (receiver@, 100nat)]);
        Some(TestSetup { genesis_alloc, bootstrap_txs, expected_balances })
    }

    /// `count` transfers of 100 wei, transfer `i` from the key of byte
    /// `i + 1`, funded with 1,000,000 wei, to the account of the key of byte
    /// `i + 100` (bytes taken modulo 256); none where one of the transfers
    /// cannot be made.
    pub fn multi_transfer(chain_id: u64, count: usize) -> (r: Option<Self>)
        requires
            count * 2 <= usize::MAX,
        ensures
            match r {
                Some(s) => {
                    &&& forall|i: int|
                        0 <= i < count ==> #[trigger] transfer_made(chain_id, sender_seed(i), receiver_seed(i), 100, 0)
                    &&& balances(s.genesis_alloc@) == pair_balances(count as nat, 1_000_000, 0)
                    &&& s.bootstrap_txs.len() == count
                    &&& forall|i: int|
                        0 <= i < count ==> scenario_transfer(
                            chain_id,
                            sender_seed(i),
                            seed_account(receiver_seed(i)),
                            100,
                            0,
                        ) == Some(#[trigger] s.bootstrap_txs[i]@)
                    &&& balances(s.expected_balances@) == pair_balances(count as nat, 999_900, 100)
                },
                None => exists|i: int|
                    0 <= i < count && !#[trigger] transfer_made(chain_id, sender_seed(i), receiver_seed(i), 100, 0),
            },
    {
        let initial = u256_from_u128(1_000_000);
        let zero = u256_from_u128(0);
        let amount = u256_from_u128(100);
        let left = u256_wrapping_sub(&initial, &amount);
        proof {
            lemma_word(amount@);
            lemma_word_modulus_large();
            lemma_small_mod(999_900, word_modulus());
        }
        let mut genesis_alloc: Vec<([u8; 20], [u8; 32])> = Vec::new();
        let mut bootstrap_txs: Vec<Vec<u8>> = Vec::new();
        let mut expected_balances: Vec<([u8; 20], [u8; 32])> = Vec::new();
        let mut i: usize = 0;
        while i < count
            invariant
                0 <= i <= count,
                be_value(initial@) == 1_000_000,
                be_value(zero@) == 0,
                amount@ == word(100),
                be_value(amount@) == 100,
                be_value(left@) == 999_900,
                forall|j: int| 0 <= j < i ==> #[trigger] transfer_made(chain_id, sender_seed(j), receiver_seed(j), 100, 0),
                balances(genesis_alloc@) == pair_balances(i as nat, 1_000_000, 0),
                bootstrap_txs.len() == i,
                forall|j: int|
                    0 <= j < i ==> scenario_transfer(chain_id, sender_seed(j), seed_account(receiver_seed(j)), 100, 0)
                        == Some(#[trigger] bootstrap_txs[j]@),
                balances(expected_balances@) == pair_balances(i as nat, 999_900, 100),
            decreases count - i,
        {
            let s = ((i % 256 + 1) % 256) as u8;
            let t = ((i % 256 + 100) % 256) as u8;
            assert(s == sender_seed(i as int));
            assert(t == receiver_seed(i as int));
            let (key, sender) = repeated_key_address(s);
            let (_, receiver) = repeated_key_address(t);
            let (sender, receiver) = match (sender, receiver) {
                (Some(a), Some(b)) => (a, b),
                _ => {
                    assert(!transfer_made(chain_id, sender_seed(i as int), receiver_seed(i as int), 100, 0));
                    return None;
                },
            };
            let tx = match Evm::sign_eip1559_transfer(&key, chain_id, &receiver, &amount, 0, TRANSFER_GAS_LIMIT) {
                Some(tx) => tx,
                None => {
                    assert(!transfer_made(chain_id, sender_seed(i as int), receiver_seed(i as int), 100, 0));
                    return None;
                },
            };
            let ghost g0 = genesis_alloc@;
            let ghost e0 = expected_balances@;
            genesis_alloc.push((sender, initial));
            genesis_alloc.push((receiver, zero));
            bootstrap_txs.push(tx);
            expected_balances.push((sender, left));
            expected_balances.push((receiver, amount));
            proof {
                assert(balances(genesis_alloc@) =~= balances(g0).push((sender@, 1_000_000nat)).push((receiver@, 0nat)));
                assert(balances(expected_balances@) =~= balances(e0).push((sender@, 999_900nat)).push((receiver@, 100nat)));
                assert(transfer_made(chain_id, sender_seed(i as int), receiver_seed(i as int), 100, 0));
            }
            i = i + 1;
        }
        Some(TestSetup { genesis_alloc, bootstrap_txs, expected_balances })
    }

    /// `tx_count` transfers of 100 wei with nonces `0..tx_count` from the
    /// key of ones, funded with 10,000,000 wei, to the account of the key of
    /// twos; the sender is expected to keep the rest (a 256-bit word wraps
    /// below zero) and the receiver the total. None where a transfer cannot
    /// be made.
    pub fn sequential_nonces(chain_id: u64, tx_count: usize) -> (r: Option<Self>)
        ensures
            match r {
                Some(s) => match (seed_address(1), seed_address(2)) {
                    (Some(from), Some(to)) => {
                        &&& balances(s.genesis_alloc@) == seq![(from, 10_000_000nat), (to, 0nat)]
                        &&& s.bootstrap_txs.len() == tx_count
                        &&& forall|n: int|
                            #![trigger s.bootstrap_txs[n]]
                            0 <= n < tx_count ==> scenario_transfer(chain_id, 1, to, 100, n as u64) == Some(
                                s.bootstrap_txs[n]@,
                            )
                        &&& balances(s.expected_balances@) == seq![
                            (from, ((10_000_000 - 100 * tx_count) % (word_modulus() as int)) as nat),
                            (to, (100 * tx_count) as nat),
                        ]
                    },
                    _ => false,
                },
                None => {
                    ||| seed_address(1) is None
                    ||| seed_address(2) is None
                    ||| exists|n: int| 0 <= n < tx_count && !#[trigger] transfer_made(chain_id, 1, 2, 100, n as u64)
                },
            },
    {
        let (key, sender) = repeated_key_address(1);
        let (_, receiver) = repeated_key_address(2);
        let (sender, receiver) = match (sender, receiver) {
            (Some(s), Some(t)) => (s, t),
            _ => {
                return None;
            },
        };
        let initial = u256_from_u128(10_000_000);
        let amount = u256_from_u128(100);
        proof {
            lemma_word(amount@);
            lemma_word_modulus_large();
        }
        let mut bootstrap_txs: Vec<Vec<u8>> = Vec::new();
        let mut n: usize = 0;
        while n < tx_count
            invariant
                0 <= n <= tx_count,
                key@ == repeated_key(1),
                seed_address(1) == Some(sender@),
                seed_address(2) == Some(receiver@),
                amount@ == word(100),
                bootstrap_txs.len() == n,
                forall|m: int|
                    #![trigger bootstrap_txs[m]]
                    0 <= m < n ==> scenario_transfer(chain_id, 1, receiver@, 100, m as u64) == Some(
                        bootstrap_txs[m]@,
                    ),
            decreases tx_count - n,
        {
            match Evm::sign_eip1559_transfer(&key, chain_id, &receiver, &amount, n as u64, TRANSFER_GAS_LIMIT) {
                Some(tx) => bootstrap_txs.push(tx),
                None => {
                    assert(!transfer_made(chain_id, 1, 2, 100, n as u64));
                    return None;
                },
            }
            n = n + 1;
        }
        let total = u256_wrapping_mul(&amount, &u256_from_u128(tx_count as u128));
        let left = u256_wrapping_sub(&initial, &total);
        assert(be_value(total@) == 100 * tx_count) by {
            assert(100 * tx_count < 0x1_0000_0000_0000_0000_0000_0000_0000_0000) by (nonlinear_arith)
                requires
                    tx_count <= usize::MAX,
                    usize::MAX <= u64::MAX,
            ;
            lemma_small_mod((100 * tx_count) as nat, word_modulus());
        }
        let mut genesis_alloc: Vec<([u8; 20], [u8; 32])> = Vec::new();
        genesis_alloc.push((sender, initial));
        genesis_alloc.push((receiver, u256_from_u128(0)));
        let mut expected_balances: Vec<([u8; 20], [u8; 32])> = Vec::new();
        expected_balances.push((sender, left));
        expected_balances.push((receiver, total));
        assert(balances(genesis_alloc@) =~= seq![(sender@, 10_000_000nat), (receiver@, 0nat)]);
        assert(balances(expected_balances@) =~= seq![
            (sender@, ((10_000_000 - 100 * tx_count) % (word_modulus() as int)) as nat),
            (receiver@, (100 * tx_count) as nat),
        ]);
        Some(TestSetup { genesis_alloc, bootstrap_txs, expected_balances })
    }
}

/// A sequential-nonce scenario conserves value: unless the transfers
/// exceed the sender's funds, what the sender is expected to keep and what
/// the receiver is expected to get add up to the sender's initial funds.
pub proof fn lemma_sequential_conserves(tx_count: nat)
    requires
        100 * tx_count <= 10_000_000,
    ensures
        ((10_000_000 - 100 * tx_count) % (word_modulus() as int)) + 100 * tx_count == 10_000_000,
{
    lemma_word_modulus_large();
    lemma_small_mod((10_000_000 - 100 * tx_count) as nat, word_modulus());
}

} // verus!
