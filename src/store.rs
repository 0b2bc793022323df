use vstd::prelude::*;
use crate::account::{is_fresh_record, Ciphertexts, PublicKey, VoidPrivateAccount};
use crate::error::ErrorCode;

verus! {

/// Durable mapping from an owner to its encrypted account record.
pub struct AccountStore {
    records: Vec<VoidPrivateAccount>,
    index: Ghost<Map<PublicKey, VoidPrivateAccount>>,
}

impl View for AccountStore {
    type V = Map<PublicKey, VoidPrivateAccount>;

    closed spec fn view(&self) -> Map<PublicKey, VoidPrivateAccount> {
        self.index@
    }
}

impl AccountStore {
    /// The vector holds each owner at most once, and exactly the records of
    /// the map.
    pub closed spec fn wf(&self) -> bool {
        &&& forall|i: int|
            0 <= i < self.records@.len() ==> #[trigger] self.index@.contains_key(
                self.records@[i].owner,
            ) && self.index@[self.records@[i].owner] == self.records@[i]
        &&& forall|i: int, j: int|
            0 <= i < self.records@.len() && 0 <= j < self.records@.len() && i != j
                ==> #[trigger] self.records@[i].owner != #[trigger] self.records@[j].owner
        &&& forall|k: PublicKey| #[trigger]
            self.index@.contains_key(k) ==> exists|i: int|
                0 <= i < self.records@.len() && #[trigger] self.records@[i].owner == k
    }

    pub fn new() -> (r: AccountStore)
        ensures
            r.wf(),
            r@ == Map::<PublicKey, VoidPrivateAccount>::empty(),
    {
        AccountStore { records: Vec::new(), index: Ghost(Map::empty()) }
    }

    fn find(&self, owner: PublicKey) -> (r: Option<usize>)
        requires
            self.wf(),
        ensures
            match r {
                Some(i) => i < self.records@.len() && self.records@[i as int].owner == owner,
                None => !self@.contains_key(owner),
            },
    {
        let mut i: usize = 0;
        while i < self.records.len()
            invariant
                self.wf(),
                i <= self.records@.len(),
                forall|j: int| 0 <= j < i ==> #[trigger] self.records@[j].owner != owner,
            decreases self.records@.len() - i,
        {
            if self.records[i].owner == owner {
                return Some(i);
            }
            i = i + 1;
        }
        None
    }

    /// The record of `owner`, or `NotFound`.
    pub fn get(&self, owner: PublicKey) -> (r: Result<VoidPrivateAccount, ErrorCode>)
        requires
            self.wf(),
        ensures
            self@.contains_key(owner) ==> r == Ok::<VoidPrivateAccount, ErrorCode>(self@[owner]),
            !self@.contains_key(owner) ==> r == Err::<VoidPrivateAccount, ErrorCode>(
                ErrorCode::NotFound,
            ),
    {
        match self.find(owner) {
            Some(i) => Ok(self.records[i]),
            None => Err(ErrorCode::NotFound),
        }
    }

    /// Creates the uninitialized record of `owner`; `AlreadyExists` if it has
    /// one.
    pub fn create(&mut self, owner: PublicKey) -> (r: Result<VoidPrivateAccount, ErrorCode>)
        requires
            old(self).wf(),
        ensures
            final(self).wf(),
            old(self)@.contains_key(owner) ==> r == Err::<VoidPrivateAccount, ErrorCode>(
                ErrorCode::AlreadyExists,
            ) && final(self)@ == old(self)@,
            !old(self)@.contains_key(owner) ==> r is Ok && is_fresh_record(r->Ok_0, owner)
                && final(self)@ == old(self)@.insert(owner, r->Ok_0),
    {
        match self.find(owner) {
            Some(_) => Err(ErrorCode::AlreadyExists),
            None => {
                let rec = VoidPrivateAccount::uninitialized(owner);
                proof {
                    assert forall|k: PublicKey| #[trigger]
                        self.index@.contains_key(k) implies k != owner by {
                        if k == owner {
                            assert(!self.index@.contains_key(owner));
                        }
                    }
                }
                self.records.push(rec);
                self.index = Ghost(self.index@.insert(owner, rec));
                proof {
                    let n = self.records@.len() - 1;
                    assert forall|k: PublicKey| #[trigger]
                        self.index@.contains_key(k) implies exists|i: int|
                        0 <= i < self.records@.len() && #[trigger] self.records@[i].owner == k by {
                        if k == owner {
                            assert(self.records@[n].owner == k);
                        } else {
                            assert(old(self).index@.contains_key(k));
                            let i = choose|i: int|
                                0 <= i < old(self).records@.len()
                                    && #[trigger] old(self).records@[i].owner == k;
                            assert(self.records@[i].owner == k);
                        }
                    }
                    assert forall|i: int|
                        0 <= i < self.records@.len() implies #[trigger] self.index@.contains_key(
                        self.records@[i].owner,
                    ) && self.index@[self.records@[i].owner] == self.records@[i] by {
                        if i < n {
                            assert(old(self).records@[i] == self.records@[i]);
                            assert(old(self).index@.contains_key(old(self).records@[i].owner));
                        }
                    }
                    assert forall|i: int, j: int|
                        0 <= i < self.records@.len() && 0 <= j < self.records@.len() && i != j
                            implies #[trigger] self.records@[i].owner
                        != #[trigger] self.records@[j].owner by {
                        if i < n {
                            assert(old(self).index@.contains_key(old(self).records@[i].owner));
                        }
                        if j < n {
                            assert(old(self).index@.contains_key(old(self).records@[j].owner));
                        }
                    }
                }
                Ok(rec)
            }
        }
    }

    /// Overwrites the blocks and nonce of `owner`'s record in one write;
    /// `NotFound` if it has none.
    pub fn commit(&mut self, owner: PublicKey, blocks: Ciphertexts, nonce: u128) -> (r: Result<
        VoidPrivateAccount,
        ErrorCode,
    >)
        requires
            old(self).wf(),
        ensures
            final(self).wf(),
            !old(self)@.contains_key(owner) ==> r == Err::<VoidPrivateAccount, ErrorCode>(
                ErrorCode::NotFound,
            ) && final(self)@ == old(self)@,
            old(self)@.contains_key(owner) ==> r == Ok::<VoidPrivateAccount, ErrorCode>(
                VoidPrivateAccount {
                    owner: old(self)@[owner].owner,
                    state_nonce: nonce,
                    encrypted_state: blocks,
                },
            ) && final(self)@ == old(self)@.insert(owner, r->Ok_0),
    {
        match self.find(owner) {
            None => Err(ErrorCode::NotFound),
            Some(i) => {
                let rec = VoidPrivateAccount {
                    owner: self.records[i].owner,
                    state_nonce: nonce,
                    encrypted_state: blocks,
                };
                proof {
                    assert(self.index@.contains_key(self.records@[i as int].owner));
                }
                self.records.set(i, rec);
                self.index = Ghost(self.index@.insert(owner, rec));
                proof {
                    assert forall|k: PublicKey| #[trigger]
                        self.index@.contains_key(k) implies exists|j: int|
                        0 <= j < self.records@.len() && #[trigger] self.records@[j].owner == k by {
                        if k == owner {
                            assert(self.records@[i as int].owner == k);
                        } else {
                            assert(old(self).index@.contains_key(k));
                            let j = choose|j: int|
                                0 <= j < old(self).records@.len()
                                    && #[trigger] old(self).records@[j].owner == k;
                            assert(self.records@[j].owner == k);
                        }
                    }
                    assert forall|j: int|
                        0 <= j < self.records@.len() implies #[trigger] self.index@.contains_key(
                        self.records@[j].owner,
                    ) && self.index@[self.records@[j].owner] == self.records@[j] by {
                        if j != i {
                            assert(old(self).records@[j] == self.records@[j]);
                            assert(old(self).index@.contains_key(old(self).records@[j].owner));
                        }
                    }
                    assert forall|a: int, b: int|
                        0 <= a < self.records@.len() && 0 <= b < self.records@.len() && a != b
                            implies #[trigger] self.records@[a].owner
                        != #[trigger] self.records@[b].owner by {
                        assert(old(self).records@[a].owner == self.records@[a].owner);
                        assert(old(self).records@[b].owner == self.records@[b].owner);
                    }
                }
                Ok(rec)
            }
        }
    }
}

} // verus!
