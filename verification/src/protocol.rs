//! The conditional expiry rule, "give a key a time to live only if its
//! value is empty", in its two encodings, and the verdicts on what the
//! store reports afterwards.

use crate::key::{byte_seqs, copy_bytes, same_bytes};
use vstd::prelude::*;

verus! {

/// What the store reports as time to live for a key that has none.
pub const NO_EXPIRY: i64 = -1;

/// What the store reports as time to live for a key that it does not hold.
pub const MISSING_KEY: i64 = -2;

/// The server-side script of the script form. It takes the key as its one
/// key argument and the seconds as its one further argument.
pub const SET_TTL_SCRIPT: &'static str =
    "\nif redis.call(\"EXISTS\", KEYS[1]) == 1 then\n  local payload = redis.call(\"GET\", KEYS[1])\n  if payload == \"\" then\n    redis.call(\"EXPIRE\", KEYS[1], ARGV[1])\n  end\nend\n";

/// The two encodings of the rule.
#[derive(Clone, Copy, Debug, PartialEq, Eq, Structural)]
pub enum Form {
    /// One atomic server-side step that tests the value and sets the expiry.
    Script,
    /// Two independent commands in one round trip: a conditional set, then
    /// an expiry whatever the first command did.
    Batch,
}

/// A command of the protocol, as plain values.
#[derive(Debug, PartialEq, Eq)]
pub enum Command {
    /// Store `value` under `key` unless the key holds a value already.
    SetIfNotExists { key: Vec<u8>, value: Vec<u8> },
    /// Let `key` expire after `seconds`.
    Expire { key: Vec<u8>, seconds: u32 },
    /// Run the script: let `key` expire after `seconds` if it holds the
    /// empty value.
    ExpireIfEmpty { key: Vec<u8>, seconds: u32 },
}

/// What a command stands for.
pub enum CommandModel {
    SetIfNotExists { key: Seq<u8>, value: Seq<u8> },
    Expire { key: Seq<u8>, seconds: u32 },
    ExpireIfEmpty { key: Seq<u8>, seconds: u32 },
}

impl View for Command {
    type V = CommandModel;

    open spec fn view(&self) -> CommandModel {
        match *self {
            Command::SetIfNotExists { key, value } => CommandModel::SetIfNotExists {
                key: key@,
                value: value@,
            },
            Command::Expire { key, seconds } => CommandModel::Expire { key: key@, seconds },
            Command::ExpireIfEmpty { key, seconds } => CommandModel::ExpireIfEmpty {
                key: key@,
                seconds,
            },
        }
    }
}

/// Why the rule could not be applied. None of these is a broken contract of
/// the store: each ends a run as a failure of its setup.
#[derive(Clone, Copy, Debug, PartialEq, Eq, Structural)]
pub enum ProtocolError {
    /// The key has no bytes.
    EmptyKey,
    /// The store could not be reached.
    StoreUnreachable,
    /// The store refused the script.
    ScriptRejected,
}

/// How a round trip to the store ended, as the caller saw it.
#[derive(Clone, Copy, Debug, PartialEq, Eq, Structural)]
pub enum Outcome {
    /// The store took the commands.
    Done,
    /// No answer came.
    Unreachable,
    /// The store answered with an error.
    Rejected,
}

/// The failure, if any, that an outcome of a round trip amounts to.
pub open spec fn settled(outcome: Outcome) -> Result<(), ProtocolError> {
    match outcome {
        Outcome::Done => Ok(()),
        Outcome::Unreachable => Err(ProtocolError::StoreUnreachable),
        Outcome::Rejected => Err(ProtocolError::ScriptRejected),
    }
}

/// Turns the outcome of a round trip into the protocol's result.
pub fn settle(outcome: Outcome) -> (result: Result<(), ProtocolError>)
    ensures
        result == settled(outcome),
{
    match outcome {
        Outcome::Done => Ok(()),
        Outcome::Unreachable => Err(ProtocolError::StoreUnreachable),
        Outcome::Rejected => Err(ProtocolError::ScriptRejected),
    }
}

/// The commands of the batch form, in the order in which they are sent.
pub open spec fn batch_form_model(key: Seq<u8>, value: Seq<u8>, seconds: u32) -> Seq<
    CommandModel,
> {
    seq![
        CommandModel::SetIfNotExists { key, value },
        CommandModel::Expire { key, seconds },
    ]
}

/// The views of a sequence of commands.
pub open spec fn command_models(commands: Seq<Command>) -> Seq<CommandModel> {
    commands.map_values(|c: Command| c@)
}

/// The script form for `key`: one command. Fails exactly when the key is
/// empty.
pub fn script_form(key: &Vec<u8>, seconds: u32) -> (command: Result<Command, ProtocolError>)
    ensures
        key@.len() == 0 ==> command == Err::<Command, ProtocolError>(ProtocolError::EmptyKey),
        key@.len() > 0 ==> command.is_ok() && command.unwrap()@ == (CommandModel::ExpireIfEmpty {
            key: key@,
            seconds,
        }),
{
    if key.len() == 0 {
        return Err(ProtocolError::EmptyKey);
    }
    Ok(Command::ExpireIfEmpty { key: copy_bytes(key), seconds })
}

/// The batch form for `key`: the conditional set of `value`, then the
/// expiry. Fails exactly when the key is empty.
pub fn batch_form(key: &Vec<u8>, value: &Vec<u8>, seconds: u32) -> (commands: Result<
    Vec<Command>,
    ProtocolError,
>)
    ensures
        key@.len() == 0 ==> commands == Err::<Vec<Command>, ProtocolError>(
            ProtocolError::EmptyKey,
        ),
        key@.len() > 0 ==> commands.is_ok() && command_models(commands.unwrap()@)
            == batch_form_model(key@, value@, seconds),
{
    if key.len() == 0 {
        return Err(ProtocolError::EmptyKey);
    }
    let mut commands: Vec<Command> = Vec::new();
    commands.push(Command::SetIfNotExists { key: copy_bytes(key), value: copy_bytes(value) });
    commands.push(Command::Expire { key: copy_bytes(key), seconds });
    assert(command_models(commands@) =~= batch_form_model(key@, value@, seconds));
    Ok(commands)
}

/// The command that follows the conditional set in `form`.
pub open spec fn second_step(form: Form, key: Seq<u8>, seconds: u32) -> CommandModel {
    match form {
        Form::Batch => CommandModel::Expire { key, seconds },
        Form::Script => CommandModel::ExpireIfEmpty { key, seconds },
    }
}

/// The commands of a sweep: for each key in order, the conditional set of
/// `value` and then the second step of `form`.
pub open spec fn sweep_model(form: Form, keys: Seq<Seq<u8>>, value: Seq<u8>, seconds: u32) -> Seq<
    CommandModel,
>
    decreases keys.len(),
{
    if keys.len() == 0 {
        Seq::empty()
    } else {
        sweep_model(form, keys.drop_last(), value, seconds).push(
            CommandModel::SetIfNotExists { key: keys.last(), value },
        ).push(second_step(form, keys.last(), seconds))
    }
}

/// Builds the commands that apply the rule in `form` to every key of
/// `keys`, each first set to `value` if the store does not hold it, for one
/// round trip. Fails exactly when some key is empty.
pub fn sweep(form: Form, keys: &Vec<Vec<u8>>, value: &Vec<u8>, seconds: u32) -> (commands: Result<
    Vec<Command>,
    ProtocolError,
>)
    ensures
        commands.is_err() <==> exists|i: int|
            0 <= i < keys@.len() && (#[trigger] keys@[i])@.len() == 0,
        commands.is_err() ==> commands == Err::<Vec<Command>, ProtocolError>(
            ProtocolError::EmptyKey,
        ),
        commands.is_ok() ==> command_models(commands.unwrap()@) == sweep_model(
            form,
            byte_seqs(keys@),
            value@,
            seconds,
        ),
{
    let ghost all = byte_seqs(keys@);
    let mut commands: Vec<Command> = Vec::new();
    let mut i: usize = 0;
    assert(command_models(commands@) =~= sweep_model(form, all.subrange(0, 0), value@, seconds));
    while i < keys.len()
        invariant
            i <= keys.len(),
            all == byte_seqs(keys@),
            forall|k: int| 0 <= k < i ==> (#[trigger] keys@[k])@.len() > 0,
            command_models(commands@) == sweep_model(
                form,
                all.subrange(0, i as int),
                value@,
                seconds,
            ),
        decreases keys.len() - i,
    {
        let key = &keys[i];
        if key.len() == 0 {
            return Err(ProtocolError::EmptyKey);
        }
        let ghost before = command_models(commands@);
        commands.push(Command::SetIfNotExists { key: copy_bytes(key), value: copy_bytes(value) });
        match form {
            Form::Batch => {
                commands.push(Command::Expire { key: copy_bytes(key), seconds });
            },
            Form::Script => {
                commands.push(Command::ExpireIfEmpty { key: copy_bytes(key), seconds });
            },
        }
        proof {
            let upto = all.subrange(0, i + 1);
            assert(upto.drop_last() =~= all.subrange(0, i as int));
            assert(upto.last() == key@);
            assert(command_models(commands@) =~= before.push(
                CommandModel::SetIfNotExists { key: key@, value: value@ },
            ).push(second_step(form, key@, seconds)));
        }
        i += 1;
    }
    assert(all.subrange(0, all.len() as int) =~= all);
    Ok(commands)
}

/// The time to live that each form owes. The batch form sets one whatever
/// the key held; the script form sets one only where the key held the empty
/// value, and leaves the key without expiry otherwise.
pub open spec fn ttl_as_expected(form: Form, value_is_empty: bool, ttl: i64) -> bool {
    match form {
        Form::Batch => ttl > 0,
        Form::Script => if value_is_empty {
            ttl > 0
        } else {
            ttl == NO_EXPIRY
        },
    }
}

/// Whether `ttl`, reported for a key that held `value` when the rule was
/// applied in `form`, is what that form owes.
pub fn check_ttl(form: Form, value: &Vec<u8>, ttl: i64) -> (ok: bool)
    ensures
        ok == ttl_as_expected(form, value@.len() == 0, ttl),
{
    match form {
        Form::Batch => ttl > 0,
        Form::Script => if value.len() == 0 {
            ttl > 0
        } else {
            ttl == NO_EXPIRY
        },
    }
}

/// What a sweep over many keys must show at one of them: the value that
/// was set, unchanged, and the time to live that the form owes for it.
pub open spec fn sweep_entry_ok(form: Form, expected: Seq<u8>, value: Seq<u8>, ttl: i64) -> bool {
    value == expected && ttl_as_expected(form, expected.len() == 0, ttl)
}

/// Checks the values and times to live read back after the rule was applied
/// in `form` to many keys that were all set to `expected`: every value is
/// still `expected` and every time to live is what the form owes.
pub fn check_sweep(form: Form, expected: &Vec<u8>, results: &Vec<(Vec<u8>, i64)>) -> (ok: bool)
    ensures
        ok == forall|i: int|
            0 <= i < results@.len() ==> sweep_entry_ok(
                form,
                expected@,
                (#[trigger] results@[i]).0@,
                results@[i].1,
            ),
{
    let mut i: usize = 0;
    while i < results.len()
        invariant
            i <= results.len(),
            forall|k: int|
                0 <= k < i ==> sweep_entry_ok(
                    form,
                    expected@,
                    (#[trigger] results@[k]).0@,
                    results@[k].1,
                ),
        decreases results.len() - i,
    {
        let entry = &results[i];
        if !same_bytes(&entry.0, expected) || !check_ttl(form, expected, entry.1) {
            return false;
        }
        i += 1;
    }
    true
}

} // verus!
