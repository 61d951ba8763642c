//! Tagged keys and duplicate-free batches of them.

use vstd::prelude::*;

verus! {

/// Whether a key is written to the store before it is queried.
#[derive(Clone, Copy, Debug, PartialEq, Eq, Hash, Structural)]
pub enum Membership {
    Exists,
    Absent,
}

/// What a tagged key stands for: its bytes and its class.
pub type KeyModel = (Seq<u8>, Membership);

/// A binary-safe key together with its membership class.
#[derive(Debug, PartialEq, Eq, Hash)]
pub struct TaggedKey {
    bytes: Vec<u8>,
    class: Membership,
}

impl View for TaggedKey {
    type V = KeyModel;

    closed spec fn view(&self) -> KeyModel {
        (self.bytes@, self.class)
    }
}

/// The views of a sequence of tagged keys, position by position.
pub open spec fn models(keys: Seq<TaggedKey>) -> Seq<KeyModel> {
    keys.map_values(|k: TaggedKey| k@)
}

/// The byte sequences held by a sequence of byte vectors.
pub open spec fn byte_seqs(v: Seq<Vec<u8>>) -> Seq<Seq<u8>> {
    v.map_values(|k: Vec<u8>| k@)
}

/// The keys of `keys`, each given the class `class`.
pub open spec fn tagged(keys: Seq<Seq<u8>>, class: Membership) -> Seq<KeyModel> {
    keys.map_values(|k: Seq<u8>| (k, class))
}

/// The bare keys of a batch, in order.
pub open spec fn keys_of(batch: Seq<KeyModel>) -> Seq<Seq<u8>> {
    batch.map_values(|k: KeyModel| k.0)
}

/// No byte sequence occurs at two positions.
pub open spec fn distinct_keys(batch: Seq<KeyModel>) -> bool {
    forall|i: int, j: int|
        #![trigger batch[i], batch[j]]
        0 <= i < j < batch.len() ==> batch[i].0 != batch[j].0
}

/// Byte-wise equality of two vectors.
pub fn same_bytes(a: &Vec<u8>, b: &Vec<u8>) -> (same: bool)
    ensures
        same == (a@ == b@),
{
    if a.len() != b.len() {
        return false;
    }
    let mut i: usize = 0;
    while i < a.len()
        invariant
            a.len() == b.len(),
            i <= a.len(),
            forall|j: int| 0 <= j < i ==> a@[j] == b@[j],
        decreases a.len() - i,
    {
        if a[i] != b[i] {
            return false;
        }
        i += 1;
    }
    assert(a@ =~= b@);
    true
}

/// A fresh vector with the bytes of `a`.
pub fn copy_bytes(a: &Vec<u8>) -> (copy: Vec<u8>)
    ensures
        copy@ == a@,
{
    let mut out: Vec<u8> = Vec::new();
    let mut i: usize = 0;
    while i < a.len()
        invariant
            i <= a.len(),
            out@ == a@.subrange(0, i as int),
        decreases a.len() - i,
    {
        out.push(a[i]);
        assert(out@ =~= a@.subrange(0, i + 1));
        i += 1;
    }
    assert(out@ =~= a@);
    out
}

impl TaggedKey {
    /// A key with the given bytes and class.
    pub fn new(bytes: Vec<u8>, class: Membership) -> (key: TaggedKey)
        ensures
            key@ == (bytes@, class),
    {
        TaggedKey { bytes, class }
    }

    /// The key's bytes, as they are sent to the store.
    pub fn bytes(&self) -> (bytes: &Vec<u8>)
        ensures
            bytes@ == self@.0,
    {
        &self.bytes
    }

    /// The key's membership class.
    pub fn class(&self) -> (class: Membership)
        ensures
            class == self@.1,
    {
        self.class
    }
}

} // verus!
