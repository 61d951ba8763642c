//! The requests of the scenarios as commands of the `redis` client, ready
//! to be sent.

use crate::key::byte_seqs;
use crate::protocol::{Command, CommandModel, SET_TTL_SCRIPT};
use vstd::prelude::*;
use vstd::string::StringSliceAdditionalSpecFns;

verus! {

/// The `redis` client's command under construction.
#[verifier::external_type_specification]
#[verifier::external_body]
pub struct ExCmd(redis::Cmd);

/// The arguments that a command holds, the command's name first, each as
/// the bytes that go on the wire.
pub uninterp spec fn command_args(command: redis::Cmd) -> Seq<Seq<u8>>;

/// `redis::Cmd::new`: a command without arguments.
#[verifier::external_body]
fn empty_command() -> (command: redis::Cmd)
    ensures
        command_args(command) == Seq::<Seq<u8>>::empty(),
{
    redis::Cmd::new()
}

/// `redis::Cmd::arg` with a slice of bytes: the client appends the bytes,
/// as they are, as one further argument.
#[verifier::external_body]
fn push_arg(command: &mut redis::Cmd, arg: &[u8])
    ensures
        command_args(*final(command)) == command_args(*old(command)).push(arg@),
{
    command.arg(arg);
}

/// The decimal digits of `n` in ASCII, without leading zeros.
pub open spec fn decimal(n: nat) -> Seq<u8>
    decreases n,
{
    if n < 10 {
        seq![(48 + n) as u8]
    } else {
        decimal(n / 10).push((48 + n % 10) as u8)
    }
}

fn push_decimal(out: &mut Vec<u8>, n: u32)
    ensures
        final(out)@ == old(out)@ + decimal(n as nat),
    decreases n,
{
    if n >= 10 {
        push_decimal(out, n / 10);
    }
    let digit: u8 = 48 + (n % 10) as u8;
    out.push(digit);
    assert(out@ =~= old(out)@ + decimal(n as nat));
}

/// Writes `n` in decimal, as the store expects a number.
pub fn decimal_bytes(n: u32) -> (digits: Vec<u8>)
    ensures
        digits@ == decimal(n as nat),
{
    let mut digits: Vec<u8> = Vec::new();
    push_decimal(&mut digits, n);
    assert(digits@ =~= decimal(n as nat));
    digits
}

/// The arguments of SET for a key and a value.
pub open spec fn set_args(key: Seq<u8>, value: Seq<u8>) -> Seq<Seq<u8>> {
    seq!["SET".spec_bytes(), key, value]
}

/// The arguments of GET or TTL, as `name` says, for a key.
pub open spec fn key_args(name: &str, key: Seq<u8>) -> Seq<Seq<u8>> {
    seq![name.spec_bytes(), key]
}

/// The arguments of MGET for the keys, in their order.
pub open spec fn batched_get_args(keys: Seq<Seq<u8>>) -> Seq<Seq<u8>> {
    seq!["MGET".spec_bytes()] + keys
}

/// The arguments of a command of the protocol. The script takes the key as
/// its one key argument and the seconds as its one further argument.
pub open spec fn wire_args(command: CommandModel) -> Seq<Seq<u8>> {
    match command {
        CommandModel::SetIfNotExists { key, value } => seq!["SETNX".spec_bytes(), key, value],
        CommandModel::Expire { key, seconds } => seq![
            "EXPIRE".spec_bytes(),
            key,
            decimal(seconds as nat),
        ],
        CommandModel::ExpireIfEmpty { key, seconds } => seq![
            "EVAL".spec_bytes(),
            SET_TTL_SCRIPT.spec_bytes(),
            decimal(1),
            key,
            decimal(seconds as nat),
        ],
    }
}

/// SET `key` to `value`.
pub fn set_request(key: &Vec<u8>, value: &Vec<u8>) -> (request: redis::Cmd)
    ensures
        command_args(request) == set_args(key@, value@),
{
    let mut request = empty_command();
    push_arg(&mut request, "SET".as_bytes());
    push_arg(&mut request, key.as_slice());
    push_arg(&mut request, value.as_slice());
    assert(command_args(request) =~= set_args(key@, value@));
    request
}

/// GET `key`.
pub fn get_request(key: &Vec<u8>) -> (request: redis::Cmd)
    ensures
        command_args(request) == key_args("GET", key@),
{
    let mut request = empty_command();
    push_arg(&mut request, "GET".as_bytes());
    push_arg(&mut request, key.as_slice());
    assert(command_args(request) =~= key_args("GET", key@));
    request
}

/// TTL of `key`.
pub fn ttl_request(key: &Vec<u8>) -> (request: redis::Cmd)
    ensures
        command_args(request) == key_args("TTL", key@),
{
    let mut request = empty_command();
    push_arg(&mut request, "TTL".as_bytes());
    push_arg(&mut request, key.as_slice());
    assert(command_args(request) =~= key_args("TTL", key@));
    request
}

/// FLUSHALL.
pub fn flush_request() -> (request: redis::Cmd)
    ensures
        command_args(request) == seq!["FLUSHALL".spec_bytes()],
{
    let mut request = empty_command();
    push_arg(&mut request, "FLUSHALL".as_bytes());
    assert(command_args(request) =~= seq!["FLUSHALL".spec_bytes()]);
    request
}

/// MGET for `keys`, in their order. Whether the reply is read in optional
/// or in default-value mode is the reader's choice.
pub fn batched_get_request(keys: &Vec<Vec<u8>>) -> (request: redis::Cmd)
    ensures
        command_args(request) == batched_get_args(byte_seqs(keys@)),
{
    let mut request = empty_command();
    push_arg(&mut request, "MGET".as_bytes());
    let ghost all = batched_get_args(byte_seqs(keys@));
    assert(command_args(request) =~= all.subrange(0, 1));
    let mut i: usize = 0;
    while i < keys.len()
        invariant
            i <= keys.len(),
            all == batched_get_args(byte_seqs(keys@)),
            command_args(request) == all.subrange(0, i + 1),
        decreases keys.len() - i,
    {
        push_arg(&mut request, keys[i].as_slice());
        assert(command_args(request) =~= all.subrange(0, i + 2)) by {
            assert(all[i + 1] == keys@[i as int]@);
        }
        i += 1;
    }
    assert(all.subrange(0, all.len() as int) =~= all);
    request
}

/// A command of the protocol as the client's command.
pub fn to_wire(command: &Command) -> (request: redis::Cmd)
    ensures
        command_args(request) == wire_args(command@),
{
    let mut request = empty_command();
    match command {
        Command::SetIfNotExists { key, value } => {
            push_arg(&mut request, "SETNX".as_bytes());
            push_arg(&mut request, key.as_slice());
            push_arg(&mut request, value.as_slice());
        },
        Command::Expire { key, seconds } => {
            let digits = decimal_bytes(*seconds);
            push_arg(&mut request, "EXPIRE".as_bytes());
            push_arg(&mut request, key.as_slice());
            push_arg(&mut request, digits.as_slice());
        },
        Command::ExpireIfEmpty { key, seconds } => {
            let one = decimal_bytes(1);
            let digits = decimal_bytes(*seconds);
            push_arg(&mut request, "EVAL".as_bytes());
            push_arg(&mut request, SET_TTL_SCRIPT.as_bytes());
            push_arg(&mut request, one.as_slice());
            push_arg(&mut request, key.as_slice());
            push_arg(&mut request, digits.as_slice());
        },
    }
    assert(command_args(request) =~= wire_args(command@));
    request
}

} // verus!
