//! What the documented semantics imply for the scenarios: the laws that a
//! conforming store obeys and that the verdicts rely on.

use crate::key::{distinct_keys, keys_of, KeyModel, Membership};
use crate::protocol::{
    batch_form_model, second_step, sweep_entry_ok, sweep_model, ttl_as_expected, CommandModel, Form,
    NO_EXPIRY,
};
use crate::store::{
    after_set, after_set_if_absent, apply, apply_all, batched_lookup, batched_lookup_default,
    lookup, population, ttl_of, StoreModel,
};
use crate::verdict::{default_reply_ok, dense_reply_ok, expected_optional, optional_reply_ok};
use vstd::prelude::*;

verus! {

/// Binary safety: whatever bytes a key and a value hold, the empty value
/// included, a set followed by a get of the key returns the value.
pub proof fn lemma_set_then_get(s: StoreModel, key: Seq<u8>, value: Seq<u8>)
    ensures
        lookup(after_set(s, key, value), key) == Some(value),
{
}

/// A second set replaces the value of the first.
pub proof fn lemma_set_overwrites(s: StoreModel, key: Seq<u8>, first: Seq<u8>, second: Seq<u8>)
    ensures
        lookup(after_set(after_set(s, key, first), key, second), key) == Some(second),
{
}

/// A conditional set does not replace a value that was set before.
pub proof fn lemma_conditional_set_keeps_value(
    s: StoreModel,
    key: Seq<u8>,
    first: Seq<u8>,
    second: Seq<u8>,
)
    ensures
        lookup(after_set_if_absent(after_set(s, key, first), key, second), key) == Some(first),
{
}

/// The batch form is not atomic: on a key that holds a value, its
/// conditional set does nothing, and its expiry is applied all the same.
/// The value stays and the key has a time to live.
pub proof fn lemma_batch_form_expires_regardless(
    s: StoreModel,
    key: Seq<u8>,
    held: Seq<u8>,
    offered: Seq<u8>,
    seconds: u32,
)
    requires
        seconds > 0,
    ensures
        ({
            let after = apply_all(after_set(s, key, held), batch_form_model(key, offered, seconds));
            &&& lookup(after, key) == Some(held)
            &&& ttl_of(after, key) > 0
            &&& ttl_as_expected(Form::Batch, held.len() == 0, ttl_of(after, key))
        }),
{
    let start = after_set(s, key, held);
    let commands = batch_form_model(key, offered, seconds);
    lemma_apply_pair(start, commands[0], commands[1]);
    assert(commands =~= seq![commands[0], commands[1]]);
}

/// The script form on a key that was set to `value`: the value stays; the
/// key has a time to live if the value is empty and none if it is not.
pub proof fn lemma_script_form_expires_only_empty(
    s: StoreModel,
    key: Seq<u8>,
    value: Seq<u8>,
    seconds: u32,
)
    requires
        seconds > 0,
    ensures
        ({
            let after = apply(
                after_set(s, key, value),
                CommandModel::ExpireIfEmpty { key, seconds },
            );
            &&& lookup(after, key) == Some(value)
            &&& value.len() == 0 ==> ttl_of(after, key) > 0
            &&& value.len() > 0 ==> ttl_of(after, key) == NO_EXPIRY
            &&& ttl_as_expected(Form::Script, value.len() == 0, ttl_of(after, key))
        }),
{
}

/// A conditional set followed by the script, in one round trip, on a key
/// that the store does not hold: the key holds the value that was offered,
/// with a time to live exactly where that value is empty.
pub proof fn lemma_conditional_set_then_script(
    s: StoreModel,
    key: Seq<u8>,
    value: Seq<u8>,
    seconds: u32,
)
    requires
        seconds > 0,
        !s.dom().contains(key),
    ensures
        ({
            let after = apply_all(
                s,
                seq![
                    CommandModel::SetIfNotExists { key, value },
                    CommandModel::ExpireIfEmpty { key, seconds },
                ],
            );
            &&& lookup(after, key) == Some(value)
            &&& ttl_as_expected(Form::Script, value.len() == 0, ttl_of(after, key))
        }),
{
    lemma_apply_pair(
        s,
        CommandModel::SetIfNotExists { key, value },
        CommandModel::ExpireIfEmpty { key, seconds },
    );
}

/// A sweep over distinct keys that the store does not hold, in either
/// form: afterwards every key holds the value that was offered, unchanged,
/// with the time to live that the form owes for it; a key outside the sweep
/// is held exactly if it was held before.
pub proof fn lemma_sweep(
    form: Form,
    s: StoreModel,
    keys: Seq<Seq<u8>>,
    value: Seq<u8>,
    seconds: u32,
)
    requires
        seconds > 0,
        keys.no_duplicates(),
        forall|i: int| 0 <= i < keys.len() ==> !s.dom().contains(#[trigger] keys[i]),
    ensures
        forall|i: int|
            0 <= i < keys.len() ==> {
                let after = apply_all(s, sweep_model(form, keys, value, seconds));
                &&& lookup(after, #[trigger] keys[i]) == Some(value)
                &&& sweep_entry_ok(form, value, value, ttl_of(after, keys[i]))
            },
        forall|key: Seq<u8>|
            (forall|i: int| 0 <= i < keys.len() ==> (#[trigger] keys[i]) != key) ==> (
            #[trigger] apply_all(s, sweep_model(form, keys, value, seconds)).dom().contains(key))
                == s.dom().contains(key),
    decreases keys.len(),
{
    if keys.len() > 0 {
        let front = keys.drop_last();
        let last = keys.last();
        assert forall|i: int, j: int| 0 <= i < front.len() && 0 <= j < front.len() && i
            != j implies front[i] != front[j] by {
            assert(front[i] == keys[i] && front[j] == keys[j]);
        }
        assert forall|i: int| 0 <= i < front.len() implies !s.dom().contains(
            #[trigger] front[i],
        ) by {
            assert(front[i] == keys[i]);
        }
        lemma_sweep(form, s, front, value, seconds);
        let head = sweep_model(form, front, value, seconds);
        let first = CommandModel::SetIfNotExists { key: last, value };
        let second = second_step(form, last, seconds);
        let all = sweep_model(form, keys, value, seconds);
        let mid = apply_all(s, head);
        assert(all == head.push(first).push(second));
        assert(all.drop_last() =~= head.push(first));
        assert(head.push(first).drop_last() =~= head);
        assert(apply_all(s, all) == apply(apply(mid, first), second)) by {
            reveal_with_fuel(apply_all, 3);
        }
        assert forall|i: int| 0 <= i < front.len() implies (#[trigger] front[i]) != last by {
            assert(front[i] == keys[i] && last == keys[keys.len() - 1]);
        }
        assert(mid.dom().contains(last) == s.dom().contains(last));
        assert(!s.dom().contains(keys[keys.len() - 1]));
        let after = apply_all(s, all);
        assert forall|i: int| 0 <= i < keys.len() implies lookup(after, #[trigger] keys[i])
            == Some(value) && sweep_entry_ok(form, value, value, ttl_of(after, keys[i])) by {
            if i < front.len() {
                assert(front[i] == keys[i]);
                assert(front[i] != last);
                assert(lookup(mid, front[i]) == Some(value));
            }
        }
        assert forall|key: Seq<u8>|
            (forall|i: int| 0 <= i < keys.len() ==> (#[trigger] keys[i]) != key) implies (
        #[trigger] after.dom().contains(key)) == s.dom().contains(key) by {
            assert(keys[keys.len() - 1] != key);
            assert forall|i: int| 0 <= i < front.len() implies (#[trigger] front[i]) != key by {
                assert(front[i] == keys[i]);
            }
            assert(mid.dom().contains(key) == s.dom().contains(key));
        }
    }
}

/// Two commands in one round trip are the first, then the second.
pub proof fn lemma_apply_pair(s: StoreModel, first: CommandModel, second: CommandModel)
    ensures
        apply_all(s, seq![first, second]) == apply(apply(s, first), second),
{
    let both = seq![first, second];
    assert(both.drop_last() =~= seq![first]);
    assert(seq![first].drop_last() =~= Seq::<CommandModel>::empty());
    reveal_with_fuel(apply_all, 3);
}

/// After the existing keys of a batch with distinct keys were written, a
/// key of the batch is held, under itself, exactly if it is tagged as
/// existing, provided the store held none of the absent keys before; and a
/// key outside the batch is as it was.
pub proof fn lemma_population(s: StoreModel, batch: Seq<KeyModel>)
    requires
        distinct_keys(batch),
        forall|i: int|
            0 <= i < batch.len() && (#[trigger] batch[i]).1 == Membership::Absent
                ==> !s.dom().contains(batch[i].0),
    ensures
        forall|i: int|
            0 <= i < batch.len() ==> lookup(population(s, batch), (#[trigger] batch[i]).0)
                == expected_optional(batch[i]),
        forall|key: Seq<u8>|
            (forall|i: int| 0 <= i < batch.len() ==> (#[trigger] batch[i]).0 != key) ==> (
            #[trigger] population(s, batch).dom().contains(key)) == s.dom().contains(key),
    decreases batch.len(),
{
    if batch.len() > 0 {
        let front = batch.drop_last();
        let last = batch.last();
        assert forall|i: int, j: int| 0 <= i < j < front.len() implies front[i].0
            != front[j].0 by {
            assert(front[i] == batch[i] && front[j] == batch[j]);
        }
        assert forall|i: int|
            0 <= i < front.len() && (#[trigger] front[i]).1
                == Membership::Absent implies !s.dom().contains(front[i].0) by {
            assert(front[i] == batch[i]);
        }
        lemma_population(s, front);
        let rest = population(s, front);
        assert forall|i: int| 0 <= i < front.len() implies (#[trigger] front[i]).0 != last.0 by {
            assert(front[i] == batch[i] && last == batch[batch.len() - 1]);
        }
        assert(rest.dom().contains(last.0) == s.dom().contains(last.0));
        assert forall|i: int| 0 <= i < batch.len() implies lookup(
            population(s, batch),
            (#[trigger] batch[i]).0,
        ) == expected_optional(batch[i]) by {
            if i < front.len() {
                assert(front[i] == batch[i]);
                assert(front[i].0 != last.0);
            }
        }
        assert forall|key: Seq<u8>|
            (forall|i: int| 0 <= i < batch.len() ==> (#[trigger] batch[i]).0 != key) implies (
        #[trigger] population(s, batch).dom().contains(key)) == s.dom().contains(key) by {
            assert(batch[batch.len() - 1].0 != key);
            assert forall|i: int| 0 <= i < front.len() implies (#[trigger] front[i]).0 != key by {
                assert(front[i] == batch[i]);
            }
            assert(rest.dom().contains(key) == s.dom().contains(key));
        }
    }
}

/// Ordered retrieval in optional mode: once the existing keys of a batch
/// were written, a batched query for the keys in any order `asked` of the
/// batch returns, position by position, the key itself where it exists and
/// nothing where it is absent.
pub proof fn lemma_optional_query_in_any_order(
    s: StoreModel,
    batch: Seq<KeyModel>,
    asked: Seq<KeyModel>,
)
    requires
        distinct_keys(batch),
        asked.to_multiset() == batch.to_multiset(),
        forall|i: int|
            0 <= i < batch.len() && (#[trigger] batch[i]).1 == Membership::Absent
                ==> !s.dom().contains(batch[i].0),
    ensures
        optional_reply_ok(asked, batched_lookup(population(s, batch), keys_of(asked))),
{
    lemma_population(s, batch);
    let replies = batched_lookup(population(s, batch), keys_of(asked));
    let want = asked.map_values(|key: KeyModel| expected_optional(key));
    assert forall|j: int| 0 <= j < asked.len() implies replies[j] == want[j] by {
        lemma_member_of_rearranged(batch, asked, j);
        let i = choose|i: int| 0 <= i < batch.len() && batch[i] == asked[j];
        assert(lookup(population(s, batch), batch[i].0) == expected_optional(batch[i]));
        assert(keys_of(asked)[j] == asked[j].0);
    }
    assert(replies =~= want);
}

/// Ordered retrieval of a dense batch: where every key exists, a batched
/// query in any order returns the queried keys themselves in that order.
pub proof fn lemma_dense_query_in_any_order(
    s: StoreModel,
    batch: Seq<KeyModel>,
    asked: Seq<KeyModel>,
)
    requires
        distinct_keys(batch),
        asked.to_multiset() == batch.to_multiset(),
        forall|i: int| 0 <= i < batch.len() ==> (#[trigger] batch[i]).1 == Membership::Exists,
    ensures
        dense_reply_ok(asked, batched_lookup_default(population(s, batch), keys_of(asked))),
{
    lemma_population(s, batch);
    let values = batched_lookup_default(population(s, batch), keys_of(asked));
    assert forall|j: int| 0 <= j < asked.len() implies values[j] == keys_of(asked)[j] by {
        lemma_member_of_rearranged(batch, asked, j);
        let i = choose|i: int| 0 <= i < batch.len() && batch[i] == asked[j];
        assert(lookup(population(s, batch), batch[i].0) == expected_optional(batch[i]));
        assert(keys_of(asked)[j] == asked[j].0);
    }
    assert(values =~= keys_of(asked));
}

/// Ordered retrieval in default-value mode: where no key of the batch is
/// empty, a batched query in any order returns the empty value exactly at
/// the absent keys and the key itself at the existing ones.
pub proof fn lemma_default_query_in_any_order(
    s: StoreModel,
    batch: Seq<KeyModel>,
    asked: Seq<KeyModel>,
)
    requires
        distinct_keys(batch),
        asked.to_multiset() == batch.to_multiset(),
        forall|i: int|
            0 <= i < batch.len() && (#[trigger] batch[i]).1 == Membership::Absent
                ==> !s.dom().contains(batch[i].0),
        forall|i: int| 0 <= i < batch.len() ==> (#[trigger] batch[i]).0.len() > 0,
    ensures
        default_reply_ok(asked, batched_lookup_default(population(s, batch), keys_of(asked))),
{
    lemma_population(s, batch);
    let values = batched_lookup_default(population(s, batch), keys_of(asked));
    assert forall|j: int| 0 <= j < asked.len() implies crate::verdict::default_position_ok(
        asked[j],
        #[trigger] values[j],
    ) by {
        lemma_member_of_rearranged(batch, asked, j);
        let i = choose|i: int| 0 <= i < batch.len() && batch[i] == asked[j];
        assert(lookup(population(s, batch), batch[i].0) == expected_optional(batch[i]));
        assert(keys_of(asked)[j] == asked[j].0);
    }
}

/// Every element of a rearrangement occurs in the sequence it rearranges.
pub proof fn lemma_member_of_rearranged(batch: Seq<KeyModel>, asked: Seq<KeyModel>, j: int)
    requires
        asked.to_multiset() == batch.to_multiset(),
        0 <= j < asked.len(),
    ensures
        exists|i: int| 0 <= i < batch.len() && batch[i] == asked[j],
{
    asked.to_multiset_ensures();
    batch.to_multiset_ensures();
    assert(asked.contains(asked[j]));
    assert(asked.to_multiset().count(asked[j]) > 0);
    assert(batch.to_multiset().count(asked[j]) > 0);
    assert(batch.contains(asked[j]));
}

} // verus!
