use vstd::prelude::*;

verus! {

/// A 256-bit public key, split into its lower and upper 128 bits.
#[derive(Clone, Copy, Debug, PartialEq, Eq, Structural)]
pub struct PublicKey {
    pub lo: u128,
    pub hi: u128,
}

impl PublicKey {
    pub fn new(lo: u128, hi: u128) -> (r: PublicKey)
        ensures
            r.lo == lo,
            r.hi == hi,
    {
        PublicKey { lo, hi }
    }
}

/// The four encrypted blocks of a record: owner-low, owner-high, balance and
/// token mint, in that order.
pub type Ciphertexts = [[u8; 32]; 4];

/// The confidential account record kept on the ledger.
#[derive(Clone, Copy, Debug, PartialEq, Eq)]
pub struct VoidPrivateAccount {
    pub owner: PublicKey,
    pub state_nonce: u128,
    pub encrypted_state: Ciphertexts,
}

/// Every byte of every block is zero.
pub open spec fn blocks_are_zero(c: Ciphertexts) -> bool {
    forall|i: int, j: int| 0 <= i < 4 && 0 <= j < 32 ==> #[trigger] c[i][j] == 0u8
}

/// A record in its uninitialized form: all-zero blocks and nonce zero.
pub open spec fn is_zero_record(r: VoidPrivateAccount) -> bool {
    &&& r.state_nonce == 0
    &&& blocks_are_zero(r.encrypted_state)
}

/// The uninitialized record of `owner`.
pub open spec fn is_fresh_record(r: VoidPrivateAccount, owner: PublicKey) -> bool {
    r.owner == owner && is_zero_record(r)
}

impl VoidPrivateAccount {
    /// The record of `owner` before any computation has been committed to it.
    pub fn uninitialized(owner: PublicKey) -> (r: VoidPrivateAccount)
        ensures
            is_fresh_record(r, owner),
    {
        VoidPrivateAccount { owner, state_nonce: 0, encrypted_state: [[0u8; 32]; 4] }
    }

    /// Whether this record is still in its uninitialized form.
    pub fn is_uninitialized(&self) -> (r: bool)
        ensures
            r == is_zero_record(*self),
    {
        if self.state_nonce != 0 {
            return false;
        }
        let mut i: usize = 0;
        while i < 4
            invariant
                0 <= i <= 4,
                forall|a: int, b: int|
                    0 <= a < i && 0 <= b < 32 ==> #[trigger] self.encrypted_state[a][b] == 0u8,
            decreases 4 - i,
        {
            let mut j: usize = 0;
            while j < 32
                invariant
                    0 <= i < 4,
                    0 <= j <= 32,
                    forall|a: int, b: int|
                        0 <= a < i && 0 <= b < 32 ==> #[trigger] self.encrypted_state[a][b] == 0u8,
                    forall|b: int|
                        0 <= b < j ==> #[trigger] self.encrypted_state[i as int][b] == 0u8,
                decreases 32 - j,
            {
                if self.encrypted_state[i][j] != 0 {
                    return false;
                }
                j = j + 1;
            }
            i = i + 1;
        }
        true
    }
}

/// The plaintext state that the cluster encrypts into a record's blocks.
#[derive(Clone, Copy, Debug, PartialEq, Eq, Structural)]
pub struct PrivateAccount {
    pub owner_lo: u128,
    pub owner_hi: u128,
    pub balance: u64,
    pub token_mint: u64,
}

/// The plaintext that the account-initialization computation encrypts: every
/// field zero.
pub fn init_account() -> (r: PrivateAccount)
    ensures
        r.owner_lo == 0,
        r.owner_hi == 0,
        r.balance == 0,
        r.token_mint == 0,
{
    PrivateAccount { owner_lo: 0, owner_hi: 0, balance: 0, token_mint: 0 }
}

} // verus!
