//! The version store: a bounded, content-addressed ring of the most recent
//! versions of an artifact, keyed by BLAKE3 hash, supporting incremental
//! delivery through delta patches.
//!
//! Versions are evicted oldest-first beyond the configured capacity. A
//! caller whose base version is no longer resident must fall back to the
//! full stream.

use vstd::prelude::*;

use crate::crypto::blake3_hash;
use crate::crypto::blake3_of;
use crate::delta::DeltaPatch;
use crate::delta::apply_ops_spec;
use crate::delta::delta_ops_of;
use crate::delta::delta_ops_view;
use crate::delta::generate_delta;
use crate::strtab::vec_u8_eq;

verus! {

/// One stored version: its content hash, its bytes, and the store's
/// logical clock at insertion.
#[derive(Debug, Clone, PartialEq, Eq)]
pub struct VersionRecord {
    pub hash: Vec<u8>,
    pub bytes: Vec<u8>,
    pub created_at: u64,
}

/// The mathematical shape of a stored version.
pub struct VersionRecordV {
    pub hash: Seq<u8>,
    pub bytes: Seq<u8>,
    pub created_at: u64,
}

impl View for VersionRecord {
    type V = VersionRecordV;

    open spec fn view(&self) -> VersionRecordV {
        VersionRecordV { hash: self.hash@, bytes: self.bytes@, created_at: self.created_at }
    }
}

/// A bounded content-addressed version history, oldest first.
#[derive(Debug)]
pub struct VersionStore {
    pub records: Vec<VersionRecord>,
    pub capacity: usize,
    pub tick: u64,
}

/// The deep view of the stored records.
pub open spec fn records_view(rs: Seq<VersionRecord>) -> Seq<VersionRecordV> {
    rs.map_values(|r: VersionRecord| r@)
}

/// The first resident version with this hash, if any.
pub open spec fn store_find(rs: Seq<VersionRecordV>, hash: Seq<u8>) -> Option<Seq<u8>>
    decreases rs.len(),
{
    if rs.len() == 0 {
        None
    } else if rs[0].hash == hash {
        Some(rs[0].bytes)
    } else {
        store_find(rs.skip(1), hash)
    }
}

impl VersionStore {
    /// The stored versions, oldest first.
    pub open spec fn view_spec(&self) -> Seq<VersionRecordV> {
        records_view(self.records@)
    }

    /// Every stored record's hash is the BLAKE3 digest of its bytes, the
    /// ring respects its capacity, and every version fits the patcher's
    /// 32-bit offsets.
    pub open spec fn wf(&self) -> bool {
        &&& self.capacity >= 1
        &&& self.records@.len() <= self.capacity
        &&& (forall|j: int|
            0 <= j < self.view_spec().len() ==> (#[trigger] self.view_spec()[j]).hash == blake3_of(
                self.view_spec()[j].bytes,
            ))
        &&& (forall|j: int|
            0 <= j < self.view_spec().len() ==> (#[trigger] self.view_spec()[j]).bytes.len()
                <= 0xFFFFFFFF)
    }

    /// An empty store holding at most `capacity` versions.
    pub fn new(capacity: usize) -> (r: VersionStore)
        requires
            capacity >= 1,
        ensures
            r.wf(),
            r.view_spec() == Seq::<VersionRecordV>::empty(),
    {
        let r = VersionStore { records: Vec::new(), capacity, tick: 0 };
        proof {
            assert(r.view_spec() =~= Seq::<VersionRecordV>::empty());
        }
        r
    }

    /// Store a version: hash it, append it, and evict the oldest version
    /// when the ring is over capacity. Returns the content hash.
    pub fn put(&mut self, bytes: Vec<u8>) -> (h: Vec<u8>)
        requires
            old(self).wf(),
            bytes@.len() <= 0xFFFFFFFF,
        ensures
            final(self).wf(),
            h@ == blake3_of(bytes@),
            ({
                let pushed = old(self).view_spec().push(
                    VersionRecordV {
                        hash: blake3_of(bytes@),
                        bytes: bytes@,
                        created_at: old(self).tick,
                    },
                );
                final(self).view_spec() == if old(self).view_spec().len() < old(self).capacity {
                    pushed
                } else {
                    pushed.skip(1)
                }
            }),
            store_find(final(self).view_spec(), blake3_of(bytes@)) is Some,
    {
        let h = blake3_hash(bytes.as_slice());
        let hash_copy = vstd::slice::slice_to_vec(h.as_slice());
        let rec = VersionRecord { hash: hash_copy, bytes, created_at: self.tick };
        let ghost recv = rec@;
        self.records.push(rec);
        if self.records.len() > self.capacity {
            self.records.remove(0);
            proof {
                assert(self.view_spec() =~= old(self).view_spec().push(recv).skip(1));
            }
        } else {
            proof {
                assert(self.view_spec() =~= old(self).view_spec().push(recv));
            }
        }
        if self.tick < u64::MAX {
            self.tick = self.tick + 1;
        }
        proof {
            let sv = self.view_spec();
            assert(sv[sv.len() - 1] == recv);
            assert(exists|j: int| 0 <= j < sv.len() && (#[trigger] sv[j]).hash == recv.hash);
            lemma_store_find_present(sv, recv.hash);
        }
        h
    }

    /// Look a version up by content hash.
    pub fn get(&self, hash: &Vec<u8>) -> (r: Option<Vec<u8>>)
        ensures
            r matches Some(bytes) ==> store_find(self.view_spec(), hash@) == Some(bytes@),
            r is None ==> store_find(self.view_spec(), hash@) is None,
    {
        let mut j: usize = 0;
        proof {
            assert(self.view_spec().skip(0) =~= self.view_spec());
        }
        while j < self.records.len()
            invariant
                j <= self.records@.len(),
                forall|k: int| 0 <= k < j ==> (#[trigger] self.view_spec()[k]).hash != hash@,
                store_find(self.view_spec(), hash@) == store_find(
                    self.view_spec().skip(j as int),
                    hash@,
                ),
            decreases self.records@.len() - j,
        {
            proof {
                assert(self.view_spec()[j as int] == self.records@[j as int]@);
                assert(self.view_spec().skip(j as int)[0] == self.view_spec()[j as int]);
                assert(self.view_spec().skip(j as int).skip(1) =~= self.view_spec().skip(
                    j as int + 1,
                ));
            }
            if vec_u8_eq(&self.records[j].hash, hash) {
                return Some(vstd::slice::slice_to_vec(self.records[j].bytes.as_slice()));
            }
            j = j + 1;
        }
        proof {
            assert(self.view_spec().skip(self.records@.len() as int) =~= Seq::<
                VersionRecordV,
            >::empty());
        }
        None
    }

    /// Produce a patch from a resident base version to `target`: `Some`
    /// exactly when `base_hash` is resident. The patch's operations rebuild
    /// `target` from the resident base bytes, and its target hash is
    /// `target`'s BLAKE3 digest.
    pub fn make_patch(&self, base_hash: &Vec<u8>, target: &[u8]) -> (r: Option<DeltaPatch>)
        requires
            self.wf(),
            target@.len() <= 0xFFFFFFFF,
        ensures
            r is Some <==> store_find(self.view_spec(), base_hash@) is Some,
            r matches Some(p) ==> ({
                let base = store_find(self.view_spec(), base_hash@)->Some_0;
                &&& p.base_hash@ == blake3_of(base)
                &&& p.target_hash@ == blake3_of(target@)
                &&& delta_ops_view(p.operations@) == delta_ops_of(base, target@)
                &&& apply_ops_spec(base, delta_ops_view(p.operations@)) == Some(target@)
            }),
    {
        let base = match self.get(base_hash) {
            None => {
                return None;
            },
            Some(b) => b,
        };
        proof {
            lemma_store_find_wf(self.view_spec(), base_hash@);
            assert(base@.len() <= 0xFFFFFFFF);
        }
        match generate_delta(base.as_slice(), target) {
            Ok(p) => Some(p),
            Err(_) => None,
        }
    }
}

/// What to send a client that announced which version it holds: nothing
/// when it already has the current one, a patch when its base is still
/// resident, or the full stream.
#[derive(Debug, Clone, PartialEq, Eq)]
pub enum UpdateResponse {
    NotModified,
    Patch(DeltaPatch),
    Full,
}

impl VersionStore {
    /// Decide how to answer a version negotiation: `NotModified` when the
    /// client's hash is the current one; a patch from the client's resident
    /// base to `target` when the base is still stored; the full stream when
    /// the client announced nothing or its base was evicted.
    pub fn plan_update(
        &self,
        client_hash: Option<&Vec<u8>>,
        current_hash: &Vec<u8>,
        target: &[u8],
    ) -> (r: UpdateResponse)
        requires
            self.wf(),
            target@.len() <= 0xFFFFFFFF,
        ensures
            r == UpdateResponse::NotModified <==> (client_hash matches Some(h) && h@
                == current_hash@),
            r matches UpdateResponse::Patch(p) ==> ({
                &&& client_hash matches Some(h) && h@ != current_hash@ && store_find(
                    self.view_spec(),
                    h@,
                ) is Some
                &&& p.target_hash@ == blake3_of(target@)
                &&& apply_ops_spec(
                    store_find(self.view_spec(), client_hash->Some_0@)->Some_0,
                    delta_ops_view(p.operations@),
                ) == Some(target@)
            }),
            r == UpdateResponse::Full ==> (client_hash is None || (client_hash matches Some(h)
                && h@ != current_hash@ && store_find(self.view_spec(), h@) is None)),
    {
        match client_hash {
            None => UpdateResponse::Full,
            Some(h) => {
                if vec_u8_eq(h, current_hash) {
                    UpdateResponse::NotModified
                } else {
                    match self.make_patch(h, target) {
                        Some(p) => UpdateResponse::Patch(p),
                        None => UpdateResponse::Full,
                    }
                }
            },
        }
    }
}

/// A record just pushed is found.
pub proof fn lemma_store_find_present(rs: Seq<VersionRecordV>, hash: Seq<u8>)
    requires
        rs.len() > 0,
        exists|j: int| 0 <= j < rs.len() && (#[trigger] rs[j]).hash == hash,
    ensures
        store_find(rs, hash) is Some,
    decreases rs.len(),
{
    if rs[0].hash == hash {
    } else {
        let j = choose|j: int| 0 <= j < rs.len() && (#[trigger] rs[j]).hash == hash;
        assert(rs.skip(1)[j - 1] == rs[j]);
        lemma_store_find_present(rs.skip(1), hash);
    }
}

/// What `store_find` returns satisfies the store's well-formedness: its
/// bytes hash to the searched key and fit the patcher.
pub proof fn lemma_store_find_wf(rs: Seq<VersionRecordV>, hash: Seq<u8>)
    requires
        forall|j: int| 0 <= j < rs.len() ==> (#[trigger] rs[j]).hash == blake3_of(rs[j].bytes),
        forall|j: int| 0 <= j < rs.len() ==> (#[trigger] rs[j]).bytes.len() <= 0xFFFFFFFF,
    ensures
        store_find(rs, hash) matches Some(bytes) ==> blake3_of(bytes) == hash && bytes.len()
            <= 0xFFFFFFFF,
    decreases rs.len(),
{
    if rs.len() > 0 {
        assert(rs[0] == rs[0]);
        assert(forall|j: int|
            0 <= j < rs.skip(1).len() ==> (#[trigger] rs.skip(1)[j]) == rs[j + 1]);
        lemma_store_find_wf(rs.skip(1), hash);
    }
}

} // verus!
