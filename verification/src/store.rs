//! The store's documented command semantics as a mathematical model, and an
//! in-memory store that follows it, for running scenarios without a server.

use crate::batch::Batch;
use crate::key::{byte_seqs, copy_bytes, same_bytes, KeyModel, Membership};
use crate::protocol::{command_models, Command, CommandModel, MISSING_KEY, NO_EXPIRY};
use crate::verdict::{defaulted, optional_seqs};
use vstd::prelude::*;

verus! {

/// The state of a store: for each key that it holds, the value and the
/// seconds to live, if any.
pub type StoreModel = Map<Seq<u8>, (Seq<u8>, Option<u32>)>;

/// GET: the value under `key`, if the store holds the key.
pub open spec fn lookup(s: StoreModel, key: Seq<u8>) -> Option<Seq<u8>> {
    if s.dom().contains(key) {
        Some(s[key].0)
    } else {
        None
    }
}

/// SET: `key` holds `value` and has no expiry.
pub open spec fn after_set(s: StoreModel, key: Seq<u8>, value: Seq<u8>) -> StoreModel {
    s.insert(key, (value, None))
}

/// SETNX: as SET where the store does not hold `key`, else no change.
pub open spec fn after_set_if_absent(s: StoreModel, key: Seq<u8>, value: Seq<u8>) -> StoreModel {
    if s.dom().contains(key) {
        s
    } else {
        after_set(s, key, value)
    }
}

/// EXPIRE: a held key gets `seconds` to live, and leaves at once where
/// `seconds` is zero; a key that is not held stays so.
pub open spec fn after_expire(s: StoreModel, key: Seq<u8>, seconds: u32) -> StoreModel {
    if !s.dom().contains(key) {
        s
    } else if seconds == 0 {
        s.remove(key)
    } else {
        s.insert(key, (s[key].0, Some(seconds)))
    }
}

/// The script: EXPIRE where the key is held with the empty value, else no
/// change.
pub open spec fn after_expire_if_empty(s: StoreModel, key: Seq<u8>, seconds: u32) -> StoreModel {
    if s.dom().contains(key) && s[key].0.len() == 0 {
        after_expire(s, key, seconds)
    } else {
        s
    }
}

/// TTL: the seconds to live, `NO_EXPIRY` for a key without expiry,
/// `MISSING_KEY` for a key that is not held.
pub open spec fn ttl_of(s: StoreModel, key: Seq<u8>) -> i64 {
    if !s.dom().contains(key) {
        MISSING_KEY
    } else {
        match s[key].1 {
            Some(seconds) => seconds as i64,
            None => NO_EXPIRY,
        }
    }
}

/// Batched GET in optional mode: `lookup` for each key, in order.
pub open spec fn batched_lookup(s: StoreModel, keys: Seq<Seq<u8>>) -> Seq<Option<Seq<u8>>> {
    keys.map_values(|key: Seq<u8>| lookup(s, key))
}

/// Batched GET in default-value mode: the empty value where the optional
/// mode has nothing.
pub open spec fn batched_lookup_default(s: StoreModel, keys: Seq<Seq<u8>>) -> Seq<Seq<u8>> {
    keys.map_values(|key: Seq<u8>| defaulted(lookup(s, key)))
}

/// The store after one command of the protocol.
pub open spec fn apply(s: StoreModel, command: CommandModel) -> StoreModel {
    match command {
        CommandModel::SetIfNotExists { key, value } => after_set_if_absent(s, key, value),
        CommandModel::Expire { key, seconds } => after_expire(s, key, seconds),
        CommandModel::ExpireIfEmpty { key, seconds } => after_expire_if_empty(s, key, seconds),
    }
}

/// The store after a sequence of commands, each applied to what the one
/// before left. Nothing makes the sequence atomic.
pub open spec fn apply_all(s: StoreModel, commands: Seq<CommandModel>) -> StoreModel
    decreases commands.len(),
{
    if commands.len() == 0 {
        s
    } else {
        apply(apply_all(s, commands.drop_last()), commands.last())
    }
}

/// The store after each existing key of `batch` was written under itself,
/// in the batch's order. Absent keys are not written.
pub open spec fn population(s: StoreModel, batch: Seq<KeyModel>) -> StoreModel
    decreases batch.len(),
{
    if batch.len() == 0 {
        s
    } else {
        let rest = population(s, batch.drop_last());
        match batch.last().1 {
            Membership::Exists => after_set(rest, batch.last().0, batch.last().0),
            Membership::Absent => rest,
        }
    }
}

struct Record {
    key: Vec<u8>,
    value: Vec<u8>,
    expiry: Option<u32>,
}

/// An in-memory store with the documented semantics. Time does not pass in
/// it: a key reports the seconds to live that it was given.
pub struct MemoryStore {
    records: Vec<Record>,
    model: Ghost<StoreModel>,
}

impl View for MemoryStore {
    type V = StoreModel;

    closed spec fn view(&self) -> StoreModel {
        self.model@
    }
}

impl MemoryStore {
    /// The records hold each key once, and the model holds what they hold.
    pub closed spec fn wf(&self) -> bool {
        &&& forall|i: int|
            0 <= i < self.records@.len() ==> self.model@.dom().contains(
                (#[trigger] self.records@[i]).key@,
            ) && self.model@[self.records@[i].key@] == (
                self.records@[i].value@,
                self.records@[i].expiry,
            )
        &&& forall|k: Seq<u8>| #[trigger]
            self.model@.dom().contains(k) ==> exists|i: int|
                0 <= i < self.records@.len() && (#[trigger] self.records@[i]).key@ == k
        &&& forall|i: int, j: int|
            0 <= i < j < self.records@.len() ==> (#[trigger] self.records@[i]).key@ != (
            #[trigger] self.records@[j]).key@
    }

    /// An empty store.
    pub fn new() -> (store: MemoryStore)
        ensures
            store.wf(),
            store@ == Map::<Seq<u8>, (Seq<u8>, Option<u32>)>::empty(),
    {
        MemoryStore { records: Vec::new(), model: Ghost(Map::empty()) }
    }

    /// FLUSHALL: forgets every key.
    pub fn flush_all(&mut self)
        ensures
            final(self).wf(),
            final(self)@ == Map::<Seq<u8>, (Seq<u8>, Option<u32>)>::empty(),
    {
        self.records = Vec::new();
        self.model = Ghost(Map::empty());
    }

    fn position(&self, key: &Vec<u8>) -> (found: Option<usize>)
        requires
            self.wf(),
        ensures
            match found {
                Some(i) => i < self.records@.len() && self.records@[i as int].key@ == key@
                    && self@.dom().contains(key@),
                None => !self@.dom().contains(key@),
            },
    {
        let mut i: usize = 0;
        while i < self.records.len()
            invariant
                i <= self.records@.len(),
                self.wf(),
                forall|k: int| 0 <= k < i ==> (#[trigger] self.records@[k]).key@ != key@,
            decreases self.records.len() - i,
        {
            if same_bytes(&self.records[i].key, key) {
                return Some(i);
            }
            i += 1;
        }
        None
    }

    fn put(&mut self, key: &Vec<u8>, value: &Vec<u8>, expiry: Option<u32>)
        requires
            old(self).wf(),
        ensures
            final(self).wf(),
            final(self)@ == old(self)@.insert(key@, (value@, expiry)),
    {
        let record = Record { key: copy_bytes(key), value: copy_bytes(value), expiry };
        let ghost at: int;
        match self.position(key) {
            Some(i) => {
                self.records.set(i, record);
                proof {
                    at = i as int;
                }
            },
            None => {
                self.records.push(record);
                proof {
                    at = self.records@.len() - 1;
                }
            },
        }
        self.model = Ghost(self.model@.insert(key@, (value@, expiry)));
        proof {
            let n = self.records@.len() as int;
            assert forall|k: Seq<u8>| #[trigger] self.model@.dom().contains(k) implies exists|
                i: int,
            |
                0 <= i < n && (#[trigger] self.records@[i]).key@ == k by {
                if k == key@ {
                    assert(self.records@[at].key@ == k);
                } else {
                    assert(old(self).model@.dom().contains(k));
                    let w = choose|w: int|
                        0 <= w < old(self).records@.len() && (#[trigger] old(
                            self,
                        ).records@[w]).key@ == k;
                    assert(self.records@[w].key@ == k);
                }
            }
        }
    }

    fn discard(&mut self, at: usize)
        requires
            old(self).wf(),
            at < old(self).records@.len(),
        ensures
            final(self).wf(),
            final(self)@ == old(self)@.remove(old(self).records@[at as int].key@),
    {
        let ghost gone = self.records@[at as int].key@;
        self.records.remove(at);
        self.model = Ghost(self.model@.remove(gone));
        proof {
            let before = old(self).records@;
            let n = self.records@.len() as int;
            assert forall|i: int| 0 <= i < n implies (#[trigger] self.records@[i]) == before[if i
                < at {
                i
            } else {
                i + 1
            }] by {}
            assert forall|k: Seq<u8>| #[trigger] self.model@.dom().contains(k) implies exists|
                i: int,
            |
                0 <= i < n && (#[trigger] self.records@[i]).key@ == k by {
                assert(old(self).model@.dom().contains(k));
                let w = choose|w: int| 0 <= w < before.len() && (#[trigger] before[w]).key@ == k;
                if w < at {
                    assert(self.records@[w].key@ == k);
                } else {
                    assert(w != at);
                    assert(self.records@[w - 1].key@ == k);
                }
            }
        }
    }

    /// SET: stores `value` under `key`, replacing what was there, expiry
    /// included.
    pub fn set(&mut self, key: &Vec<u8>, value: &Vec<u8>)
        requires
            old(self).wf(),
        ensures
            final(self).wf(),
            final(self)@ == after_set(old(self)@, key@, value@),
    {
        self.put(key, value, None);
    }

    /// GET: the value under `key`, or `None` where the key is not held. An
    /// empty value is a value.
    pub fn get(&self, key: &Vec<u8>) -> (value: Option<Vec<u8>>)
        requires
            self.wf(),
        ensures
            match value {
                Some(v) => lookup(self@, key@) == Some(v@),
                None => lookup(self@, key@).is_none(),
            },
    {
        match self.position(key) {
            Some(i) => Some(copy_bytes(&self.records[i].value)),
            None => None,
        }
    }

    /// SETNX: stores `value` under `key` unless the key is held. Returns
    /// whether it stored.
    pub fn set_if_not_exists(&mut self, key: &Vec<u8>, value: &Vec<u8>) -> (stored: bool)
        requires
            old(self).wf(),
        ensures
            final(self).wf(),
            final(self)@ == after_set_if_absent(old(self)@, key@, value@),
            stored == !old(self)@.dom().contains(key@),
    {
        match self.position(key) {
            Some(_) => false,
            None => {
                self.put(key, value, None);
                true
            },
        }
    }

    /// EXPIRE: gives a held key `seconds` to live. Returns whether the key
    /// was held.
    pub fn expire(&mut self, key: &Vec<u8>, seconds: u32) -> (held: bool)
        requires
            old(self).wf(),
        ensures
            final(self).wf(),
            final(self)@ == after_expire(old(self)@, key@, seconds),
            held == old(self)@.dom().contains(key@),
    {
        match self.position(key) {
            Some(i) => {
                if seconds == 0 {
                    self.discard(i);
                } else {
                    let value = copy_bytes(&self.records[i].value);
                    self.put(key, &value, Some(seconds));
                }
                true
            },
            None => false,
        }
    }

    /// The script: EXPIRE if the key is held with the empty value.
    pub fn expire_if_empty(&mut self, key: &Vec<u8>, seconds: u32)
        requires
            old(self).wf(),
        ensures
            final(self).wf(),
            final(self)@ == after_expire_if_empty(old(self)@, key@, seconds),
    {
        match self.position(key) {
            Some(i) => {
                if self.records[i].value.len() == 0 {
                    self.expire(key, seconds);
                }
            },
            None => {},
        }
    }

    /// TTL: the seconds to live of `key`.
    pub fn ttl(&self, key: &Vec<u8>) -> (seconds: i64)
        requires
            self.wf(),
        ensures
            seconds == ttl_of(self@, key@),
    {
        match self.position(key) {
            Some(i) => match self.records[i].expiry {
                Some(seconds) => seconds as i64,
                None => NO_EXPIRY,
            },
            None => MISSING_KEY,
        }
    }

    /// Batched GET in optional mode: for each key in order, its value or
    /// `None`.
    pub fn batched_get(&self, keys: &Vec<Vec<u8>>) -> (replies: Vec<Option<Vec<u8>>>)
        requires
            self.wf(),
        ensures
            optional_seqs(replies@) == batched_lookup(self@, byte_seqs(keys@)),
    {
        let mut replies: Vec<Option<Vec<u8>>> = Vec::new();
        let mut i: usize = 0;
        while i < keys.len()
            invariant
                i <= keys.len(),
                self.wf(),
                replies@.len() == i,
                forall|k: int|
                    0 <= k < i ==> (#[trigger] optional_seqs(replies@)[k]) == lookup(
                        self@,
                        keys@[k]@,
                    ),
            decreases keys.len() - i,
        {
            let ghost before = replies@;
            let reply = self.get(&keys[i]);
            replies.push(reply);
            assert forall|k: int| 0 <= k < i + 1 implies (#[trigger] optional_seqs(replies@)[k])
                == lookup(self@, keys@[k]@) by {
                if k < i {
                    assert(replies@[k] == before[k]);
                    assert(optional_seqs(before)[k] == lookup(self@, keys@[k]@));
                }
            }
            i += 1;
        }
        assert(optional_seqs(replies@) =~= batched_lookup(self@, byte_seqs(keys@)));
        replies
    }

    /// Batched GET in default-value mode: for each key in order, its value,
    /// or the empty value where the key is not held.
    pub fn batched_get_default(&self, keys: &Vec<Vec<u8>>) -> (values: Vec<Vec<u8>>)
        requires
            self.wf(),
        ensures
            byte_seqs(values@) == batched_lookup_default(self@, byte_seqs(keys@)),
    {
        let mut values: Vec<Vec<u8>> = Vec::new();
        let mut i: usize = 0;
        while i < keys.len()
            invariant
                i <= keys.len(),
                self.wf(),
                values@.len() == i,
                forall|k: int|
                    0 <= k < i ==> (#[trigger] values@[k])@ == defaulted(
                        lookup(self@, keys@[k]@),
                    ),
            decreases keys.len() - i,
        {
            let value = match self.get(&keys[i]) {
                Some(v) => v,
                None => Vec::new(),
            };
            assert(value@ =~= defaulted(lookup(self@, keys@[i as int]@)));
            values.push(value);
            i += 1;
        }
        assert(byte_seqs(values@) =~= batched_lookup_default(self@, byte_seqs(keys@)));
        values
    }

    /// Runs one command of the protocol.
    pub fn execute(&mut self, command: &Command)
        requires
            old(self).wf(),
        ensures
            final(self).wf(),
            final(self)@ == apply(old(self)@, command@),
    {
        match command {
            Command::SetIfNotExists { key, value } => {
                self.set_if_not_exists(key, value);
            },
            Command::Expire { key, seconds } => {
                self.expire(key, *seconds);
            },
            Command::ExpireIfEmpty { key, seconds } => {
                self.expire_if_empty(key, *seconds);
            },
        }
    }

    /// Runs the commands in order, as one round trip does: each command
    /// sees what the one before left.
    pub fn execute_all(&mut self, commands: &Vec<Command>)
        requires
            old(self).wf(),
        ensures
            final(self).wf(),
            final(self)@ == apply_all(old(self)@, command_models(commands@)),
    {
        let ghost all = command_models(commands@);
        let mut i: usize = 0;
        while i < commands.len()
            invariant
                i <= commands.len(),
                self.wf(),
                all == command_models(commands@),
                self@ == apply_all(old(self)@, all.subrange(0, i as int)),
            decreases commands.len() - i,
        {
            self.execute(&commands[i]);
            proof {
                let upto = all.subrange(0, i + 1);
                assert(upto.drop_last() =~= all.subrange(0, i as int));
                assert(upto.last() == commands@[i as int]@);
            }
            i += 1;
        }
        assert(all.subrange(0, all.len() as int) =~= all);
    }

    /// Writes each existing key of `batch` under itself.
    pub fn populate(&mut self, batch: &Batch)
        requires
            old(self).wf(),
        ensures
            final(self).wf(),
            final(self)@ == population(old(self)@, batch@),
    {
        let mut i: usize = 0;
        while i < batch.len()
            invariant
                i <= batch@.len(),
                self.wf(),
                self@ == population(old(self)@, batch@.subrange(0, i as int)),
            decreases batch@.len() - i,
        {
            let key = batch.get(i);
            match key.class() {
                Membership::Exists => {
                    self.set(key.bytes(), key.bytes());
                },
                Membership::Absent => {},
            }
            proof {
                let upto = batch@.subrange(0, i + 1);
                assert(upto.drop_last() =~= batch@.subrange(0, i as int));
                assert(upto.last() == batch@[i as int]);
            }
            i += 1;
        }
        assert(batch@.subrange(0, batch@.len() as int) =~= batch@);
    }
}

} // verus!
