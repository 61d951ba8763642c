//! Verdicts on what a batched retrieval returned for a batch.

use crate::batch::Batch;
use crate::key::{byte_seqs, keys_of, same_bytes, KeyModel, Membership};
use vstd::prelude::*;

verus! {

/// The reply that the optional mode owes for a key: its own bytes where it
/// exists, nothing where it is absent.
pub open spec fn expected_optional(key: KeyModel) -> Option<Seq<u8>> {
    match key.1 {
        Membership::Exists => Some(key.0),
        Membership::Absent => None,
    }
}

/// The value that the default-value mode hands out for an optional reply:
/// the empty value in place of an absent one.
pub open spec fn defaulted(reply: Option<Seq<u8>>) -> Seq<u8> {
    match reply {
        Some(value) => value,
        None => Seq::empty(),
    }
}

/// Whether a default-mode value passes for a key: an empty value is read as
/// "absent", any other as the stored value, which must be the key itself.
pub open spec fn default_position_ok(key: KeyModel, value: Seq<u8>) -> bool {
    if value.len() == 0 {
        key.1 == Membership::Absent
    } else {
        key.1 == Membership::Exists && value == key.0
    }
}

/// The views of a sequence of optional values.
pub open spec fn optional_seqs(replies: Seq<Option<Vec<u8>>>) -> Seq<Option<Seq<u8>>> {
    replies.map_values(
        |r: Option<Vec<u8>>|
            match r {
                Some(v) => Some(v@),
                None => None,
            },
    )
}

/// A dense reply passes when it is the queried keys themselves, in order.
pub open spec fn dense_reply_ok(batch: Seq<KeyModel>, values: Seq<Seq<u8>>) -> bool {
    values == keys_of(batch)
}

/// An optional-mode reply passes when every position holds what
/// `expected_optional` says for the key queried there.
pub open spec fn optional_reply_ok(batch: Seq<KeyModel>, replies: Seq<Option<Seq<u8>>>) -> bool {
    replies == batch.map_values(|key: KeyModel| expected_optional(key))
}

/// A default-mode reply passes when it has one value per key and every
/// position passes `default_position_ok`.
pub open spec fn default_reply_ok(batch: Seq<KeyModel>, values: Seq<Seq<u8>>) -> bool {
    &&& values.len() == batch.len()
    &&& forall|i: int| 0 <= i < batch.len() ==> default_position_ok(batch[i], #[trigger] values[i])
}

/// Checks a reply to a query for keys that all exist, each stored under
/// itself: the values must be the queried keys in the queried order.
pub fn check_dense(batch: &Batch, values: &Vec<Vec<u8>>) -> (ok: bool)
    ensures
        ok == dense_reply_ok(batch@, byte_seqs(values@)),
{
    if values.len() != batch.len() {
        return false;
    }
    let mut i: usize = 0;
    while i < values.len()
        invariant
            i <= values.len(),
            values@.len() == batch@.len(),
            forall|k: int| 0 <= k < i ==> (#[trigger] values@[k])@ == batch@[k].0,
        decreases values.len() - i,
    {
        if !same_bytes(&values[i], batch.get(i).bytes()) {
            assert(byte_seqs(values@)[i as int] != keys_of(batch@)[i as int]);
            return false;
        }
        i += 1;
    }
    assert(byte_seqs(values@) =~= keys_of(batch@));
    true
}

/// Checks an optional-mode reply: a value exactly at the positions of the
/// existing keys, equal to the key, and nothing at the others.
pub fn check_optional(batch: &Batch, replies: &Vec<Option<Vec<u8>>>) -> (ok: bool)
    ensures
        ok == optional_reply_ok(batch@, optional_seqs(replies@)),
{
    let ghost want = batch@.map_values(|key: KeyModel| expected_optional(key));
    if replies.len() != batch.len() {
        return false;
    }
    let mut i: usize = 0;
    while i < replies.len()
        invariant
            i <= replies.len(),
            replies@.len() == batch@.len(),
            want == batch@.map_values(|key: KeyModel| expected_optional(key)),
            forall|k: int| 0 <= k < i ==> (#[trigger] optional_seqs(replies@)[k]) == want[k],
        decreases replies.len() - i,
    {
        let key = batch.get(i);
        let fits = match &replies[i] {
            Some(value) => match key.class() {
                Membership::Exists => same_bytes(value, key.bytes()),
                Membership::Absent => false,
            },
            None => match key.class() {
                Membership::Exists => false,
                Membership::Absent => true,
            },
        };
        assert(fits == (optional_seqs(replies@)[i as int] == want[i as int]));
        if !fits {
            return false;
        }
        i += 1;
    }
    assert(optional_seqs(replies@) =~= want);
    true
}

/// Checks a default-mode reply, in which the store puts the empty value in
/// place of an absent key. An existing key whose stored value is empty
/// cannot be told from an absent one in this mode and does not pass.
pub fn check_default(batch: &Batch, values: &Vec<Vec<u8>>) -> (ok: bool)
    ensures
        ok == default_reply_ok(batch@, byte_seqs(values@)),
{
    if values.len() != batch.len() {
        return false;
    }
    let mut i: usize = 0;
    while i < values.len()
        invariant
            i <= values.len(),
            values@.len() == batch@.len(),
            forall|k: int|
                0 <= k < i ==> default_position_ok(batch@[k], #[trigger] byte_seqs(values@)[k]),
        decreases values.len() - i,
    {
        let key = batch.get(i);
        let value = &values[i];
        let fits = if value.len() == 0 {
            match key.class() {
                Membership::Exists => false,
                Membership::Absent => true,
            }
        } else {
            match key.class() {
                Membership::Exists => same_bytes(value, key.bytes()),
                Membership::Absent => false,
            }
        };
        assert(fits == default_position_ok(batch@[i as int], byte_seqs(values@)[i as int]));
        if !fits {
            return false;
        }
        i += 1;
    }
    true
}

/// Where no key and no stored value is empty, the two modes agree: the
/// default-mode reading of an optional reply passes exactly when the
/// optional reply itself is the expected one.
pub proof fn lemma_modes_agree_without_empty_values(key: KeyModel, reply: Option<Seq<u8>>)
    requires
        key.0.len() > 0,
        reply.is_some() ==> reply.unwrap().len() > 0,
    ensures
        default_position_ok(key, defaulted(reply)) <==> reply == expected_optional(key),
{
}

/// The pitfall of the default-value mode: an existing key that holds the
/// empty value yields the right optional reply, and still the default mode
/// takes it for absent.
pub proof fn lemma_default_mode_misreads_empty_value(key: KeyModel)
    requires
        key.1 == Membership::Exists,
        key.0.len() == 0,
    ensures
        defaulted(expected_optional(key)) == defaulted(None),
        !default_position_ok(key, defaulted(expected_optional(key))),
{
}

} // verus!
