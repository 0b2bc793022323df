use vstd::prelude::*;
use crate::account::PublicKey;
use crate::error::ErrorCode;

verus! {

/// One outstanding computation: what was asked of the cluster, and which
/// record its callback may change.
#[derive(Clone, Copy, Debug, PartialEq, Eq, Structural)]
pub struct ComputationRequest {
    pub circuit_id: u32,
    pub computation_offset: u64,
    /// The one argument handed to the cluster in the clear: the nonce for the
    /// new record.
    pub nonce: u128,
    pub target: PublicKey,
}

/// The outstanding requests, keyed by computation and correlation offset.
pub struct RequestTracker {
    entries: Vec<ComputationRequest>,
    index: Ghost<Map<(u32, u64), ComputationRequest>>,
}

pub open spec fn key_of(r: ComputationRequest) -> (u32, u64) {
    (r.circuit_id, r.computation_offset)
}

impl View for RequestTracker {
    type V = Map<(u32, u64), ComputationRequest>;

    closed spec fn view(&self) -> Map<(u32, u64), ComputationRequest> {
        self.index@
    }
}

impl RequestTracker {
    pub closed spec fn wf(&self) -> bool {
        &&& forall|i: int|
            0 <= i < self.entries@.len() ==> #[trigger] self.index@.contains_key(
                key_of(self.entries@[i]),
            ) && self.index@[key_of(self.entries@[i])] == self.entries@[i]
        &&& forall|i: int, j: int|
            0 <= i < self.entries@.len() && 0 <= j < self.entries@.len() && i != j
                ==> key_of(#[trigger] self.entries@[i]) != key_of(#[trigger] self.entries@[j])
        &&& forall|k: (u32, u64)| #[trigger]
            self.index@.contains_key(k) ==> exists|i: int|
                0 <= i < self.entries@.len() && #[trigger] key_of(self.entries@[i]) == k
    }

    pub fn new() -> (r: RequestTracker)
        ensures
            r.wf(),
            r@ == Map::<(u32, u64), ComputationRequest>::empty(),
    {
        RequestTracker { entries: Vec::new(), index: Ghost(Map::empty()) }
    }

    fn find(&self, circuit_id: u32, computation_offset: u64) -> (r: Option<usize>)
        requires
            self.wf(),
        ensures
            match r {
                Some(i) => i < self.entries@.len() && key_of(self.entries@[i as int]) == (
                circuit_id,
                computation_offset,
                ),
                None => !self@.contains_key((circuit_id, computation_offset)),
            },
    {
        let mut i: usize = 0;
        while i < self.entries.len()
            invariant
                self.wf(),
                i <= self.entries@.len(),
                forall|j: int|
                    0 <= j < i ==> key_of(#[trigger] self.entries@[j]) != (
                    circuit_id,
                    computation_offset,
                    ),
            decreases self.entries@.len() - i,
        {
            let e = self.entries[i];
            if e.circuit_id == circuit_id && e.computation_offset == computation_offset {
                return Some(i);
            }
            i = i + 1;
        }
        None
    }

    /// Whether some outstanding request targets `target`.
    pub fn targets(&self, target: PublicKey) -> (r: bool)
        requires
            self.wf(),
        ensures
            r == exists|k: (u32, u64)| #[trigger]
                self@.contains_key(k) && self@[k].target == target,
    {
        let mut i: usize = 0;
        while i < self.entries.len()
            invariant
                self.wf(),
                i <= self.entries@.len(),
                forall|j: int| 0 <= j < i ==> (#[trigger] self.entries@[j]).target != target,
            decreases self.entries@.len() - i,
        {
            if self.entries[i].target == target {
                proof {
                    assert(self@.contains_key(key_of(self.entries@[i as int])));
                }
                return true;
            }
            i = i + 1;
        }
        proof {
            assert forall|k: (u32, u64)| #[trigger]
                self@.contains_key(k) implies self@[k].target != target by {
                let j = choose|j: int|
                    0 <= j < self.entries@.len() && #[trigger] key_of(self.entries@[j]) == k;
                assert(self.index@.contains_key(key_of(self.entries@[j])));
            }
        }
        false
    }

    /// Records a new outstanding request; `DuplicateOffset` if the offset is
    /// already outstanding for that computation.
    pub fn register(
        &mut self,
        computation_offset: u64,
        circuit_id: u32,
        target: PublicKey,
        nonce: u128,
    ) -> (r: Result<(), ErrorCode>)
        requires
            old(self).wf(),
        ensures
            final(self).wf(),
            old(self)@.contains_key((circuit_id, computation_offset)) ==> r == Err::<(), ErrorCode>(
                ErrorCode::DuplicateOffset,
            ) && final(self)@ == old(self)@,
            !old(self)@.contains_key((circuit_id, computation_offset)) ==> r == Ok::<(), ErrorCode>(
                (),
            ) && final(self)@ == old(self)@.insert(
                (circuit_id, computation_offset),
                ComputationRequest { circuit_id, computation_offset, nonce, target },
            ),
    {
        match self.find(circuit_id, computation_offset) {
            Some(_) => Err(ErrorCode::DuplicateOffset),
            None => {
                let req = ComputationRequest { circuit_id, computation_offset, nonce, target };
                let ghost key = key_of(req);
                self.entries.push(req);
                self.index = Ghost(self.index@.insert(key, req));
                proof {
                    let n = self.entries@.len() - 1;
                    assert forall|k: (u32, u64)| #[trigger]
                        self.index@.contains_key(k) implies exists|i: int|
                        0 <= i < self.entries@.len() && #[trigger] key_of(self.entries@[i]) == k
                        by {
                        if k == key {
                            assert(key_of(self.entries@[n]) == k);
                        } else {
                            assert(old(self).index@.contains_key(k));
                            let i = choose|i: int|
                                0 <= i < old(self).entries@.len() && #[trigger] key_of(
                                    old(self).entries@[i],
                                ) == k;
                            assert(key_of(self.entries@[i]) == k);
                        }
                    }
                    assert forall|i: int|
                        0 <= i < self.entries@.len() implies #[trigger] self.index@.contains_key(
                        key_of(self.entries@[i]),
                    ) && self.index@[key_of(self.entries@[i])] == self.entries@[i] by {
                        if i < n {
                            assert(old(self).entries@[i] == self.entries@[i]);
                            assert(old(self).index@.contains_key(key_of(old(self).entries@[i])));
                        }
                    }
                    assert forall|i: int, j: int|
                        0 <= i < self.entries@.len() && 0 <= j < self.entries@.len() && i != j
                            implies key_of(#[trigger] self.entries@[i]) != key_of(
                        #[trigger] self.entries@[j],
                    ) by {
                        if i < n {
                            assert(old(self).index@.contains_key(key_of(old(self).entries@[i])));
                        }
                        if j < n {
                            assert(old(self).index@.contains_key(key_of(old(self).entries@[j])));
                        }
                    }
                }
                Ok(())
            }
        }
    }

    /// Takes out the outstanding request for the offset and computation, so
    /// that it can be resolved once only; `NotFound` if there is none.
    pub fn resolve(&mut self, computation_offset: u64, circuit_id: u32) -> (r: Result<
        ComputationRequest,
        ErrorCode,
    >)
        requires
            old(self).wf(),
        ensures
            final(self).wf(),
            !old(self)@.contains_key((circuit_id, computation_offset)) ==> r == Err::<
                ComputationRequest,
                ErrorCode,
            >(ErrorCode::NotFound) && final(self)@ == old(self)@,
            old(self)@.contains_key((circuit_id, computation_offset)) ==> r == Ok::<
                ComputationRequest,
                ErrorCode,
            >(old(self)@[(circuit_id, computation_offset)]) && final(self)@ == old(self)@.remove(
                (circuit_id, computation_offset),
            ),
    {
        match self.find(circuit_id, computation_offset) {
            None => Err(ErrorCode::NotFound),
            Some(i) => {
                let ghost key = (circuit_id, computation_offset);
                proof {
                    assert(self.index@.contains_key(key_of(self.entries@[i as int])));
                }
                let req = self.entries.remove(i);
                self.index = Ghost(self.index@.remove(key));
                proof {
                    let o = old(self).entries@;
                    let s = self.entries@;
                    assert forall|j: int| 0 <= j < s.len() implies #[trigger] s[j] == (if j < i {
                        o[j]
                    } else {
                        o[j + 1]
                    }) by {}
                    assert forall|k: (u32, u64)| #[trigger]
                        self.index@.contains_key(k) implies exists|j: int|
                        0 <= j < s.len() && #[trigger] key_of(s[j]) == k by {
                        assert(old(self).index@.contains_key(k));
                        let j = choose|j: int| 0 <= j < o.len() && #[trigger] key_of(o[j]) == k;
                        assert(j != i);
                        if j < i {
                            assert(key_of(s[j]) == k);
                        } else {
                            assert(key_of(s[j - 1]) == k);
                        }
                    }
                    assert forall|j: int|
                        0 <= j < s.len() implies #[trigger] self.index@.contains_key(key_of(s[j]))
                        && self.index@[key_of(s[j])] == s[j] by {
                        let oj = if j < i {
                            j
                        } else {
                            j + 1
                        };
                        assert(s[j] == o[oj]);
                        assert(old(self).index@.contains_key(key_of(o[oj])));
                        assert(key_of(o[oj]) != key_of(o[i as int]));
                    }
                    assert forall|a: int, b: int|
                        0 <= a < s.len() && 0 <= b < s.len() && a != b implies key_of(
                        #[trigger] s[a],
                    ) != key_of(#[trigger] s[b]) by {
                        let oa = if a < i {
                            a
                        } else {
                            a + 1
                        };
                        let ob = if b < i {
                            b
                        } else {
                            b + 1
                        };
                        assert(s[a] == o[oa]);
                        assert(s[b] == o[ob]);
                    }
                }
                Ok(req)
            }
        }
    }
}

} // verus!
