//! The distinctness oracle: an order-sensitive fingerprint of a sequence of
//! tagged keys, and the random reordering that it watches over.

use crate::key::{models, KeyModel, Membership, TaggedKey};
use rand::seq::SliceRandom;
use std::collections::hash_map::DefaultHasher;
use std::hash::Hasher;
use vstd::prelude::*;
use vstd::std_specs::hash::DefaultHasherAdditionalSpecFns;

verus! {

/// The byte that stands for a membership class in a key's encoding.
pub open spec fn tag_byte(class: Membership) -> u8 {
    match class {
        Membership::Exists => 1u8,
        Membership::Absent => 0u8,
    }
}

/// The `count` lowest base-256 digits of `n`, lowest first.
pub open spec fn le_digits(n: nat, count: nat) -> Seq<u8>
    decreases count,
{
    if count == 0 {
        Seq::empty()
    } else {
        seq![(n % 256) as u8] + le_digits(n / 256, (count - 1) as nat)
    }
}

/// What the hasher is fed for one key: the class, the length of the key in
/// eight bytes, then the key.
pub open spec fn encode_key(key: KeyModel) -> Seq<u8> {
    seq![tag_byte(key.1)] + le_digits(key.0.len(), 8) + key.0
}

/// What the hasher is fed for a sequence of keys: one write per key, in
/// order.
pub open spec fn encode_batch(batch: Seq<KeyModel>) -> Seq<Seq<u8>> {
    batch.map_values(|key: KeyModel| encode_key(key))
}

/// The fingerprint of a sequence of keys: the standard hasher's digest of
/// its encoding.
pub open spec fn fingerprint_of(batch: Seq<KeyModel>) -> u64 {
    DefaultHasher::spec_finish(encode_batch(batch))
}

fn push_length(out: &mut Vec<u8>, n: usize)
    ensures
        final(out)@ == old(out)@ + le_digits(n as nat, 8),
{
    let mut rest: usize = n;
    let mut i: usize = 0;
    while i < 8
        invariant
            i <= 8,
            out@ + le_digits(rest as nat, (8 - i) as nat) == old(out)@ + le_digits(n as nat, 8),
        decreases 8 - i,
    {
        let ghost prev = out@;
        out.push((rest % 256) as u8);
        assert(out@ + le_digits((rest / 256) as nat, (8 - i - 1) as nat) =~= prev + le_digits(
            rest as nat,
            (8 - i) as nat,
        ));
        rest = rest / 256;
        i += 1;
    }
    assert(out@ + le_digits(rest as nat, 0) =~= out@);
}

fn encode(key: &TaggedKey) -> (buf: Vec<u8>)
    ensures
        buf@ == encode_key(key@),
{
    let mut buf: Vec<u8> = Vec::new();
    let tag: u8 = match key.class() {
        Membership::Exists => 1,
        Membership::Absent => 0,
    };
    buf.push(tag);
    let bytes = key.bytes();
    push_length(&mut buf, bytes.len());
    let ghost head = buf@;
    let mut i: usize = 0;
    while i < bytes.len()
        invariant
            i <= bytes.len(),
            buf@ == head + bytes@.subrange(0, i as int),
        decreases bytes.len() - i,
    {
        buf.push(bytes[i]);
        assert(buf@ =~= head + bytes@.subrange(0, i + 1));
        i += 1;
    }
    assert(bytes@.subrange(0, bytes@.len() as int) =~= bytes@);
    assert(head =~= seq![tag_byte(key@.1)] + le_digits(key@.0.len(), 8));
    buf
}

/// Computes the fingerprint of `keys`. It depends on the keys, their classes
/// and their order, and on nothing else.
pub fn fingerprint(keys: &Vec<TaggedKey>) -> (token: u64)
    ensures
        token == fingerprint_of(models(keys@)),
{
    let mut hasher = DefaultHasher::new();
    let mut i: usize = 0;
    while i < keys.len()
        invariant
            i <= keys.len(),
            hasher@ == encode_batch(models(keys@)).subrange(0, i as int),
        decreases keys.len() - i,
    {
        let buf = encode(&keys[i]);
        let ghost prev = hasher@;
        hasher.write(buf.as_slice());
        assert(hasher@ =~= encode_batch(models(keys@)).subrange(0, i + 1)) by {
            assert(models(keys@)[i as int] == keys@[i as int]@);
            assert(hasher@ == prev.push(buf@));
        }
        i += 1;
    }
    assert(hasher@ =~= encode_batch(models(keys@)));
    hasher.finish()
}

/// Shuffles `keys` in place with `rand`'s `SliceRandom::shuffle`, drawing
/// from the thread's generator (`rand::rng`). The shuffle only swaps
/// elements, so the keys afterwards are those from before in some order;
/// which order is left open. The generator stops the process if the
/// operating system's entropy source fails.
#[verifier::external_body]
pub(crate) fn shuffle_keys(keys: &mut Vec<TaggedKey>)
    ensures
        models(final(keys)@).to_multiset() == models(old(keys)@).to_multiset(),
{
    keys.shuffle(&mut rand::rng());
}

/// Two sequences of keys with different fingerprints are different
/// sequences: a changed fingerprint proves a changed order.
pub proof fn lemma_fingerprint_change_shows_reorder(a: Seq<KeyModel>, b: Seq<KeyModel>)
    requires
        fingerprint_of(a) != fingerprint_of(b),
    ensures
        a != b,
{
}

/// The encoding loses nothing: sequences of keys with the same encoding are
/// the same sequence, so fingerprints can only agree by accident of the
/// digest.
pub proof fn lemma_encoding_is_injective(a: Seq<KeyModel>, b: Seq<KeyModel>)
    requires
        encode_batch(a) == encode_batch(b),
    ensures
        a == b,
{
    assert(a.len() == encode_batch(a).len());
    assert(b.len() == encode_batch(b).len());
    assert forall|i: int| 0 <= i < a.len() implies a[i] == b[i] by {
        assert(encode_batch(a)[i] == encode_key(a[i]));
        assert(encode_batch(b)[i] == encode_key(b[i]));
        lemma_encode_key_is_injective(a[i], b[i]);
    }
    assert(a =~= b);
}

proof fn lemma_le_digits_len(n: nat, count: nat)
    ensures
        le_digits(n, count).len() == count,
    decreases count,
{
    if count > 0 {
        lemma_le_digits_len(n / 256, (count - 1) as nat);
    }
}

/// Keys with the same encoding are the same key.
pub proof fn lemma_encode_key_is_injective(x: KeyModel, y: KeyModel)
    requires
        encode_key(x) == encode_key(y),
    ensures
        x == y,
{
    lemma_le_digits_len(x.0.len(), 8);
    lemma_le_digits_len(y.0.len(), 8);
    let ex = encode_key(x);
    let ey = encode_key(y);
    assert(ex[0] == tag_byte(x.1));
    assert(ey[0] == tag_byte(y.1));
    assert(ex.len() == 9 + x.0.len());
    assert(ey.len() == 9 + y.0.len());
    assert(x.0 =~= ex.subrange(9, ex.len() as int));
    assert(y.0 =~= ey.subrange(9, ey.len() as int));
}

} // verus!
