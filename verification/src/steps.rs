//! The single-key scenarios as steps: what is sent to the store and what
//! it must answer.

use crate::key::same_bytes;
use crate::protocol::{
    batch_form, batch_form_model, check_ttl, command_models, script_form, ttl_as_expected, Command,
    CommandModel, Form, NO_EXPIRY,
};
use crate::scenario::Scenario;
use crate::store::{after_set, apply_all, lookup, ttl_of, MemoryStore, StoreModel};
use vstd::prelude::*;

verus! {

/// One step of a scenario.
#[derive(Debug, PartialEq, Eq)]
pub enum Step {
    /// Set `key` to `value`.
    Store { key: Vec<u8>, value: Vec<u8> },
    /// Send the commands in one round trip.
    Run { commands: Vec<Command> },
    /// Get `key`: the store must hold `value` under it.
    ExpectValue { key: Vec<u8>, value: Vec<u8> },
    /// Ask for the time to live of `key`: it must have none.
    ExpectNoExpiry { key: Vec<u8> },
    /// Ask for the time to live of `key`: it must be what `form` owes for a
    /// key that held `held`.
    ExpectTtl { key: Vec<u8>, form: Form, held: Vec<u8> },
}

/// What a step stands for.
pub enum StepModel {
    Store { key: Seq<u8>, value: Seq<u8> },
    Run { commands: Seq<CommandModel> },
    ExpectValue { key: Seq<u8>, value: Seq<u8> },
    ExpectNoExpiry { key: Seq<u8> },
    ExpectTtl { key: Seq<u8>, form: Form, held: Seq<u8> },
}

impl View for Step {
    type V = StepModel;

    open spec fn view(&self) -> StepModel {
        match *self {
            Step::Store { key, value } => StepModel::Store { key: key@, value: value@ },
            Step::Run { commands } => StepModel::Run { commands: command_models(commands@) },
            Step::ExpectValue { key, value } => StepModel::ExpectValue {
                key: key@,
                value: value@,
            },
            Step::ExpectNoExpiry { key } => StepModel::ExpectNoExpiry { key: key@ },
            Step::ExpectTtl { key, form, held } => StepModel::ExpectTtl {
                key: key@,
                form,
                held: held@,
            },
        }
    }
}

/// The views of a sequence of steps.
pub open spec fn step_models(steps: Seq<Step>) -> Seq<StepModel> {
    steps.map_values(|s: Step| s@)
}

/// Whether a value read from the store is what the step expects. A step
/// that reads no value expects none.
pub open spec fn accepts_value(step: StepModel, reply: Option<Seq<u8>>) -> bool {
    match step {
        StepModel::ExpectValue { key, value } => reply == Some(value),
        _ => true,
    }
}

/// Whether a time to live read from the store is what the step expects.
pub open spec fn accepts_ttl(step: StepModel, ttl: i64) -> bool {
    match step {
        StepModel::ExpectNoExpiry { key } => ttl == NO_EXPIRY,
        StepModel::ExpectTtl { key, form, held } => ttl_as_expected(form, held.len() == 0, ttl),
        _ => true,
    }
}

/// The key that a step asks the store about, if it asks.
pub open spec fn asked_key(step: StepModel) -> Option<Seq<u8>> {
    match step {
        StepModel::ExpectValue { key, value } => Some(key),
        StepModel::ExpectNoExpiry { key } => Some(key),
        StepModel::ExpectTtl { key, form, held } => Some(key),
        _ => None,
    }
}

/// Whether a store in state `s` answers a step as the step expects.
pub open spec fn step_passes(s: StoreModel, step: StepModel) -> bool {
    match asked_key(step) {
        Some(key) => accepts_value(step, lookup(s, key)) && accepts_ttl(step, ttl_of(s, key)),
        None => true,
    }
}

/// The store after a step.
pub open spec fn after_step(s: StoreModel, step: StepModel) -> StoreModel {
    match step {
        StepModel::Store { key, value } => after_set(s, key, value),
        StepModel::Run { commands } => apply_all(s, commands),
        _ => s,
    }
}

/// Whether a store that starts in state `s` passes the steps from position
/// `from` on, one after the other.
pub open spec fn passes_from(s: StoreModel, steps: Seq<StepModel>, from: int) -> bool
    decreases steps.len() - from,
{
    if from < 0 || from >= steps.len() {
        true
    } else {
        step_passes(s, steps[from]) && passes_from(after_step(s, steps[from]), steps, from + 1)
    }
}

/// The store after the first `upto` steps.
pub open spec fn after_steps(s: StoreModel, steps: Seq<StepModel>, upto: int) -> StoreModel
    decreases upto,
{
    if upto <= 0 || upto > steps.len() {
        s
    } else {
        after_step(after_steps(s, steps, upto - 1), steps[upto - 1])
    }
}

impl Step {
    /// Judges the value that the store returned for the step's key.
    pub fn judge_value(&self, reply: &Option<Vec<u8>>) -> (ok: bool)
        ensures
            ok == accepts_value(
                self@,
                match *reply {
                    Some(v) => Some(v@),
                    None => None,
                },
            ),
    {
        match self {
            Step::ExpectValue { key, value } => match reply {
                Some(got) => same_bytes(got, value),
                None => false,
            },
            _ => true,
        }
    }

    /// Judges the time to live that the store returned for the step's key.
    pub fn judge_ttl(&self, ttl: i64) -> (ok: bool)
        ensures
            ok == accepts_ttl(self@, ttl),
    {
        match self {
            Step::ExpectNoExpiry { key } => ttl == NO_EXPIRY,
            Step::ExpectTtl { key, form, held } => check_ttl(*form, held, ttl),
            _ => true,
        }
    }
}

impl MemoryStore {
    /// Performs one step on the store and judges the answer.
    pub fn perform(&mut self, step: &Step) -> (ok: bool)
        requires
            old(self).wf(),
        ensures
            final(self).wf(),
            ok == step_passes(old(self)@, step@),
            final(self)@ == after_step(old(self)@, step@),
    {
        match step {
            Step::Store { key, value } => {
                self.set(key, value);
                true
            },
            Step::Run { commands } => {
                self.execute_all(commands);
                true
            },
            Step::ExpectValue { key, value } => {
                let reply = self.get(key);
                step.judge_value(&reply)
            },
            Step::ExpectNoExpiry { key } => {
                let ttl = self.ttl(key);
                step.judge_ttl(ttl)
            },
            Step::ExpectTtl { key, form, held } => {
                let ttl = self.ttl(key);
                step.judge_ttl(ttl)
            },
        }
    }

    /// Performs the steps in order and stops at the first that the store
    /// does not pass. Returns whether it passed them all.
    pub fn rehearse(&mut self, steps: &Vec<Step>) -> (ok: bool)
        requires
            old(self).wf(),
        ensures
            final(self).wf(),
            ok == passes_from(old(self)@, step_models(steps@), 0),
            ok ==> final(self)@ == after_steps(
                old(self)@,
                step_models(steps@),
                steps@.len() as int,
            ),
    {
        let ghost all = step_models(steps@);
        let mut i: usize = 0;
        while i < steps.len()
            invariant
                i <= steps.len(),
                self.wf(),
                all == step_models(steps@),
                passes_from(old(self)@, all, 0) == passes_from(self@, all, i as int),
                self@ == after_steps(old(self)@, all, i as int),
            decreases steps.len() - i,
        {
            assert(all[i as int] == steps@[i as int]@);
            if !self.perform(&steps[i]) {
                return false;
            }
            i += 1;
        }
        true
    }
}

/// The key of the single-key scenarios: one zero byte.
pub open spec fn probe_key() -> Seq<u8> {
    seq![0u8]
}

/// The steps of each single-key scenario. The scenarios that work on a
/// generated batch have none. All but one use the key of one zero byte;
/// the scenario of the empty value uses the text "key".
pub open spec fn plan_model(scenario: Scenario) -> Seq<StepModel> {
    let k = probe_key();
    let word = seq![107u8, 101u8, 121u8];
    let v1 = seq![1u8];
    let v2 = seq![2u8];
    let none = Seq::<u8>::empty();
    match scenario {
        Scenario::BinarySafety => seq![
            StepModel::Store { key: k, value: v1 },
            StepModel::ExpectValue { key: k, value: v1 },
        ],
        Scenario::EmptyValue => seq![
            StepModel::Store { key: word, value: none },
            StepModel::ExpectValue { key: word, value: none },
        ],
        Scenario::Overwrite => seq![
            StepModel::Store { key: k, value: v1 },
            StepModel::ExpectValue { key: k, value: v1 },
            StepModel::Store { key: k, value: v2 },
            StepModel::ExpectValue { key: k, value: v2 },
        ],
        Scenario::ConditionalSet => seq![
            StepModel::Store { key: k, value: v1 },
            StepModel::ExpectValue { key: k, value: v1 },
            StepModel::Run { commands: seq![CommandModel::SetIfNotExists { key: k, value: v2 }] },
            StepModel::ExpectValue { key: k, value: v1 },
        ],
        Scenario::BatchTtl => seq![
            StepModel::Store { key: k, value: v1 },
            StepModel::ExpectValue { key: k, value: v1 },
            StepModel::ExpectNoExpiry { key: k },
            StepModel::Run { commands: batch_form_model(k, v2, 20) },
            StepModel::ExpectValue { key: k, value: v1 },
            StepModel::ExpectTtl { key: k, form: Form::Batch, held: v1 },
        ],
        Scenario::ScriptTtl => seq![
            StepModel::Store { key: k, value: v1 },
            StepModel::ExpectValue { key: k, value: v1 },
            StepModel::ExpectNoExpiry { key: k },
            StepModel::Run { commands: seq![CommandModel::ExpireIfEmpty { key: k, seconds: 5 }] },
            StepModel::ExpectTtl { key: k, form: Form::Script, held: v1 },
            StepModel::Store { key: k, value: none },
            StepModel::Run { commands: seq![CommandModel::ExpireIfEmpty { key: k, seconds: 5 }] },
            StepModel::ExpectTtl { key: k, form: Form::Script, held: none },
            StepModel::ExpectValue { key: k, value: none },
        ],
        _ => Seq::empty(),
    }
}

fn bytes_of(a: u8) -> (v: Vec<u8>)
    ensures
        v@ == seq![a],
{
    let mut v: Vec<u8> = Vec::new();
    v.push(a);
    assert(v@ =~= seq![a]);
    v
}

fn word_key() -> (v: Vec<u8>)
    ensures
        v@ == seq![107u8, 101u8, 121u8],
{
    let mut v: Vec<u8> = Vec::new();
    v.push(107);
    v.push(101);
    v.push(121);
    assert(v@ =~= seq![107u8, 101u8, 121u8]);
    v
}

fn store(key: Vec<u8>, value: Vec<u8>) -> (step: Step)
    ensures
        step@ == (StepModel::Store { key: key@, value: value@ }),
{
    Step::Store { key, value }
}

fn expect_value(key: Vec<u8>, value: Vec<u8>) -> (step: Step)
    ensures
        step@ == (StepModel::ExpectValue { key: key@, value: value@ }),
{
    Step::ExpectValue { key, value }
}

fn run_one(command: Command) -> (step: Step)
    ensures
        step@ == (StepModel::Run { commands: seq![command@] }),
{
    let mut commands: Vec<Command> = Vec::new();
    commands.push(command);
    assert(command_models(commands@) =~= seq![command@]);
    Step::Run { commands }
}

/// The steps of `scenario`, in order.
pub fn plan(scenario: Scenario) -> (steps: Vec<Step>)
    ensures
        step_models(steps@) == plan_model(scenario),
{
    let mut steps: Vec<Step> = Vec::new();
    match scenario {
        Scenario::BinarySafety => {
            steps.push(store(bytes_of(0), bytes_of(1)));
            steps.push(expect_value(bytes_of(0), bytes_of(1)));
        },
        Scenario::EmptyValue => {
            steps.push(store(word_key(), Vec::new()));
            steps.push(expect_value(word_key(), Vec::new()));
        },
        Scenario::Overwrite => {
            steps.push(store(bytes_of(0), bytes_of(1)));
            steps.push(expect_value(bytes_of(0), bytes_of(1)));
            steps.push(store(bytes_of(0), bytes_of(2)));
            steps.push(expect_value(bytes_of(0), bytes_of(2)));
        },
        Scenario::ConditionalSet => {
            steps.push(store(bytes_of(0), bytes_of(1)));
            steps.push(expect_value(bytes_of(0), bytes_of(1)));
            steps.push(run_one(Command::SetIfNotExists { key: bytes_of(0), value: bytes_of(2) }));
            steps.push(expect_value(bytes_of(0), bytes_of(1)));
        },
        Scenario::BatchTtl => {
            let key = bytes_of(0);
            let offered = bytes_of(2);
            if let Ok(commands) = batch_form(&key, &offered, 20) {
                steps.push(store(bytes_of(0), bytes_of(1)));
                steps.push(expect_value(bytes_of(0), bytes_of(1)));
                steps.push(Step::ExpectNoExpiry { key: bytes_of(0) });
                steps.push(Step::Run { commands });
                steps.push(expect_value(bytes_of(0), bytes_of(1)));
                steps.push(
                    Step::ExpectTtl { key: bytes_of(0), form: Form::Batch, held: bytes_of(1) },
                );
            }
        },
        Scenario::ScriptTtl => {
            let key = bytes_of(0);
            if let (Ok(first), Ok(second)) = (script_form(&key, 5), script_form(&key, 5)) {
                steps.push(store(bytes_of(0), bytes_of(1)));
                steps.push(expect_value(bytes_of(0), bytes_of(1)));
                steps.push(Step::ExpectNoExpiry { key: bytes_of(0) });
                steps.push(run_one(first));
                steps.push(
                    Step::ExpectTtl { key: bytes_of(0), form: Form::Script, held: bytes_of(1) },
                );
                steps.push(store(bytes_of(0), Vec::new()));
                steps.push(run_one(second));
                steps.push(
                    Step::ExpectTtl { key: bytes_of(0), form: Form::Script, held: Vec::new() },
                );
                steps.push(expect_value(bytes_of(0), Vec::new()));
            }
        },
        _ => {},
    }
    assert(step_models(steps@) =~= plan_model(scenario));
    steps
}

/// One command in a round trip of its own is that command.
pub proof fn lemma_apply_single(s: StoreModel, command: CommandModel)
    ensures
        apply_all(s, seq![command]) == crate::store::apply(s, command),
{
    assert(seq![command].drop_last() =~= Seq::<CommandModel>::empty());
    reveal_with_fuel(apply_all, 2);
}

/// A store that follows the documented semantics passes every step of
/// every single-key scenario, whatever it held when the scenario began.
pub proof fn lemma_conforming_store_passes(scenario: Scenario, s: StoreModel)
    ensures
        passes_from(s, plan_model(scenario), 0),
{
    let k = probe_key();
    let v1 = seq![1u8];
    let v2 = seq![2u8];
    let none = Seq::<u8>::empty();
    let steps = plan_model(scenario);
    let s1 = after_set(s, k, v1);
    reveal_with_fuel(passes_from, 10);
    match scenario {
        Scenario::ConditionalSet => {
            lemma_apply_single(s1, CommandModel::SetIfNotExists { key: k, value: v2 });
        },
        Scenario::BatchTtl => {
            crate::laws::lemma_apply_pair(
                s1,
                CommandModel::SetIfNotExists { key: k, value: v2 },
                CommandModel::Expire { key: k, seconds: 20 },
            );
        },
        Scenario::ScriptTtl => {
            let script = CommandModel::ExpireIfEmpty { key: k, seconds: 5 };
            lemma_apply_single(s1, script);
            let s2 = crate::store::apply(s1, script);
            assert(s2 == s1);
            let s3 = after_set(s2, k, none);
            lemma_apply_single(s3, script);
        },
        _ => {},
    }
}

} // verus!
