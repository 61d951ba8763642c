//! Generation of batches from globally unique random keys.

use crate::batch::Batch;
use crate::key::{byte_seqs, distinct_keys, tagged, Membership};
use vstd::prelude::*;

verus! {

/// The number of bytes in a generated key.
pub const KEY_BYTES: usize = 16;

/// Draws a key from `uuid`'s `Uuid::new_v4` and hands out its bytes
/// (`Uuid::as_bytes`, an array of sixteen). Which bytes come is left open:
/// they are random. The call stops the process if the operating system
/// gives no random bytes.
#[verifier::external_body]
fn fresh_key() -> (key: Vec<u8>)
    ensures
        key@.len() == KEY_BYTES,
{
    uuid::Uuid::new_v4().as_bytes().to_vec()
}

/// Draws `count` fresh keys.
fn fresh_keys(count: usize) -> (keys: Vec<Vec<u8>>)
    ensures
        keys@.len() == count,
        forall|i: int| 0 <= i < count ==> (#[trigger] keys@[i])@.len() == KEY_BYTES,
{
    let mut keys: Vec<Vec<u8>> = Vec::new();
    let mut i: usize = 0;
    while i < count
        invariant
            i <= count,
            keys@.len() == i,
            forall|k: int| 0 <= k < i ==> (#[trigger] keys@[k])@.len() == KEY_BYTES,
        decreases count - i,
    {
        keys.push(fresh_key());
        i += 1;
    }
    keys
}

/// Generates a batch of `existing_count` keys tagged `Exists` followed by
/// `absent_count` keys tagged `Absent`, each of sixteen random bytes. The
/// caller writes the `Exists` keys to the store before it queries. Returns
/// `None` exactly when the generator repeated a key among those it drew,
/// which cannot happen where at most one key is asked for.
pub fn generate(existing_count: usize, absent_count: usize) -> (batch: Option<Batch>)
    ensures
        existing_count + absent_count <= 1 ==> batch.is_some(),
        exists|existing: Seq<Seq<u8>>, absent: Seq<Seq<u8>>|
            drawn(existing, existing_count) && drawn(absent, absent_count) && #[trigger] built_from(
                batch,
                existing,
                absent,
            ),
        batch.is_some() ==> {
            let b = batch.unwrap();
            &&& b.wf()
            &&& b@.len() == existing_count + absent_count
            &&& forall|i: int|
                0 <= i < b@.len() ==> (#[trigger] b@[i]).0.len() == KEY_BYTES && b@[i].1 == (if i
                    < existing_count {
                    Membership::Exists
                } else {
                    Membership::Absent
                })
        },
{
    let existing = fresh_keys(existing_count);
    let absent = fresh_keys(absent_count);
    let batch = Batch::from_keys(&existing, &absent);
    proof {
        let e = byte_seqs(existing@);
        let a = byte_seqs(absent@);
        assert(drawn(e, existing_count));
        assert(drawn(a, absent_count));
        assert(built_from(batch, e, a));
        let all = tagged(e, Membership::Exists) + tagged(a, Membership::Absent);
        assert(all.len() == existing_count + absent_count);
    }
    batch
}

/// `count` keys as the generator hands them out: sixteen bytes each.
pub open spec fn drawn(keys: Seq<Seq<u8>>, count: usize) -> bool {
    &&& keys.len() == count
    &&& forall|i: int| 0 <= i < keys.len() ==> (#[trigger] keys[i]).len() == KEY_BYTES
}

/// What `generate` makes of the keys that it drew: the batch of the
/// existing keys followed by the absent ones where all of them differ, and
/// nothing where two are the same.
pub open spec fn built_from(
    batch: Option<Batch>,
    existing: Seq<Seq<u8>>,
    absent: Seq<Seq<u8>>,
) -> bool {
    let all = tagged(existing, Membership::Exists) + tagged(absent, Membership::Absent);
    match batch {
        Some(b) => distinct_keys(all) && b@ == all,
        None => !distinct_keys(all),
    }
}

} // verus!
