//! Duplicate-free batches of tagged keys and their reordering.

use crate::key::{
    byte_seqs, copy_bytes, distinct_keys, keys_of, models, same_bytes, tagged, KeyModel,
    Membership, TaggedKey,
};
use crate::oracle::{fingerprint, fingerprint_of, shuffle_keys};
use vstd::prelude::*;

verus! {

/// An ordered collection of tagged keys. A well-formed batch holds no byte
/// sequence twice; its order may change, its content does not.
#[derive(Debug)]
pub struct Batch {
    keys: Vec<TaggedKey>,
}

impl View for Batch {
    type V = Seq<KeyModel>;

    closed spec fn view(&self) -> Seq<KeyModel> {
        models(self.keys@)
    }
}

/// Whether no two positions of `keys` hold the same bytes.
fn all_distinct(keys: &Vec<TaggedKey>) -> (distinct: bool)
    ensures
        distinct == distinct_keys(models(keys@)),
{
    let ghost m = models(keys@);
    let mut j: usize = 0;
    while j < keys.len()
        invariant
            j <= keys.len(),
            m == models(keys@),
            forall|a: int, b: int| #![trigger m[a], m[b]] 0 <= a < b < j ==> m[a].0 != m[b].0,
        decreases keys.len() - j,
    {
        let mut i: usize = 0;
        while i < j
            invariant
                i <= j,
                j < keys.len(),
                m == models(keys@),
                forall|a: int| #![trigger m[a]] 0 <= a < i ==> m[a].0 != m[j as int].0,
            decreases j - i,
        {
            if same_bytes(keys[i].bytes(), keys[j].bytes()) {
                assert(m[i as int].0 == m[j as int].0);
                return false;
            }
            i += 1;
        }
        j += 1;
    }
    true
}

impl Batch {
    /// The batch invariant: keys are pairwise distinct.
    pub open spec fn wf(&self) -> bool {
        distinct_keys(self@)
    }

    /// Builds the batch that holds `existing`, tagged `Exists`, followed by
    /// `absent`, tagged `Absent`. Returns `None` exactly when some byte
    /// sequence occurs twice among all the keys.
    pub fn from_keys(existing: &Vec<Vec<u8>>, absent: &Vec<Vec<u8>>) -> (batch: Option<Batch>)
        ensures
            batch.is_some() <==> distinct_keys(
                tagged(byte_seqs(existing@), Membership::Exists) + tagged(
                    byte_seqs(absent@),
                    Membership::Absent,
                ),
            ),
            batch.is_some() ==> batch.unwrap().wf() && batch.unwrap()@ == tagged(
                byte_seqs(existing@),
                Membership::Exists,
            ) + tagged(byte_seqs(absent@), Membership::Absent),
    {
        let ghost head = tagged(byte_seqs(existing@), Membership::Exists);
        let ghost tail = tagged(byte_seqs(absent@), Membership::Absent);
        let mut keys: Vec<TaggedKey> = Vec::new();
        let mut i: usize = 0;
        while i < existing.len()
            invariant
                i <= existing.len(),
                head == tagged(byte_seqs(existing@), Membership::Exists),
                keys@.len() == i,
                forall|k: int| 0 <= k < i ==> (#[trigger] keys@[k])@ == head[k],
            decreases existing.len() - i,
        {
            keys.push(TaggedKey::new(copy_bytes(&existing[i]), Membership::Exists));
            i += 1;
        }
        assert(models(keys@) =~= head);
        let mut j: usize = 0;
        while j < absent.len()
            invariant
                j <= absent.len(),
                tail == tagged(byte_seqs(absent@), Membership::Absent),
                head.len() == existing.len(),
                keys@.len() == head.len() + j,
                forall|k: int| 0 <= k < head.len() ==> (#[trigger] keys@[k])@ == head[k],
                forall|k: int|
                    head.len() <= k < keys@.len() ==> (#[trigger] keys@[k])@ == tail[k - head.len()],
            decreases absent.len() - j,
        {
            keys.push(TaggedKey::new(copy_bytes(&absent[j]), Membership::Absent));
            j += 1;
        }
        assert(models(keys@) =~= head + tail);
        if all_distinct(&keys) {
            Some(Batch { keys })
        } else {
            None
        }
    }

    /// The number of keys in the batch.
    pub fn len(&self) -> (n: usize)
        ensures
            n == self@.len(),
    {
        self.keys.len()
    }

    /// The key at position `i`.
    pub fn get(&self, i: usize) -> (key: &TaggedKey)
        requires
            i < self@.len(),
        ensures
            key@ == self@[i as int],
    {
        &self.keys[i]
    }

    /// The bare keys in the batch's current order, as a batched query names
    /// them.
    pub fn query_keys(&self) -> (query: Vec<Vec<u8>>)
        ensures
            byte_seqs(query@) == keys_of(self@),
    {
        let mut query: Vec<Vec<u8>> = Vec::new();
        let mut i: usize = 0;
        while i < self.keys.len()
            invariant
                i <= self.keys.len(),
                query@.len() == i,
                forall|k: int| 0 <= k < i ==> (#[trigger] query@[k])@ == self.keys@[k]@.0,
            decreases self.keys.len() - i,
        {
            query.push(copy_bytes(self.keys[i].bytes()));
            i += 1;
        }
        assert(byte_seqs(query@) =~= keys_of(models(self.keys@)));
        query
    }

    /// The order fingerprint of the batch as it stands.
    pub fn fingerprint(&self) -> (token: u64)
        ensures
            token == fingerprint_of(self@),
    {
        fingerprint(&self.keys)
    }

    /// Puts the keys in a random order and fingerprints the result. Returns
    /// the new fingerprint when it differs from `previous`, and `None` when
    /// it does not. The content of the batch stays as it was; where
    /// `previous` is the fingerprint of the old order, a returned
    /// fingerprint shows that the order has changed. A batch of fewer than
    /// two keys has one order only, so for it the answer is `None`.
    pub fn reorder(&mut self, previous: u64) -> (token: Option<u64>)
        requires
            old(self).wf(),
        ensures
            final(self).wf(),
            final(self)@.to_multiset() == old(self)@.to_multiset(),
            final(self)@.len() == old(self)@.len(),
            token == if fingerprint_of(final(self)@) != previous {
                Some(fingerprint_of(final(self)@))
            } else {
                None
            },
            token.is_some() && previous == fingerprint_of(old(self)@) ==> final(self)@ != old(
                self,
            )@,
            old(self)@.len() <= 1 ==> final(self)@ == old(self)@,
    {
        let ghost before = models(self.keys@);
        shuffle_keys(&mut self.keys);
        proof {
            let after = models(self.keys@);
            lemma_permutation_keeps_distinct(before, after);
            if before.len() == 1 {
                before.to_multiset_ensures();
                after.to_multiset_ensures();
                assert(after.contains(after[0]));
                assert(after.to_multiset().count(after[0]) > 0);
                assert(before.contains(after[0]));
            }
            if before.len() <= 1 {
                assert(after =~= before);
            }
        }
        let token = fingerprint(&self.keys);
        if token != previous {
            Some(token)
        } else {
            None
        }
    }
}

/// A rearrangement of a batch with pairwise distinct keys has pairwise
/// distinct keys, and as many of them.
pub proof fn lemma_permutation_keeps_distinct(a: Seq<KeyModel>, b: Seq<KeyModel>)
    requires
        a.to_multiset() == b.to_multiset(),
        distinct_keys(a),
    ensures
        distinct_keys(b),
        b.len() == a.len(),
{
    a.to_multiset_ensures();
    b.to_multiset_ensures();
    assert(a.no_duplicates()) by {
        assert forall|i: int, j: int| 0 <= i < a.len() && 0 <= j < a.len() && i != j implies a[i]
            != a[j] by {
            if i < j {
                assert(a[i].0 != a[j].0);
            } else {
                assert(a[j].0 != a[i].0);
            }
        }
    }
    a.lemma_multiset_has_no_duplicates();
    b.lemma_multiset_has_no_duplicates_conv();
    assert forall|i: int, j: int| 0 <= i < j < b.len() implies b[i].0 != b[j].0 by {
        assert(b.contains(b[i]));
        assert(b.contains(b[j]));
        assert(b.to_multiset().count(b[i]) > 0);
        assert(b.to_multiset().count(b[j]) > 0);
        assert(a.to_multiset().count(b[i]) > 0);
        assert(a.to_multiset().count(b[j]) > 0);
        assert(a.contains(b[i]));
        assert(a.contains(b[j]));
        let ia = choose|k: int| 0 <= k < a.len() && a[k] == b[i];
        let ja = choose|k: int| 0 <= k < a.len() && a[k] == b[j];
        assert(b[i] != b[j]);
        if ia < ja {
            assert(a[ia].0 != a[ja].0);
        } else {
            assert(a[ja].0 != a[ia].0);
        }
    }
}

} // verus!
