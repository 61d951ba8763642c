//! The plan of a run: which scenarios there are, in which order they run,
//! what each announces and on what it works.

use crate::protocol::Form;
use vstd::prelude::*;

verus! {

/// How often a batch is reordered and queried in an ordering scenario.
pub const SHUFFLES: usize = 100;

/// The seconds to live that the sweeps ask for.
pub const SWEEP_SECONDS: u32 = 20;

pub const BINARY_SAFETY_HEADER: &'static str =
    "===== A KEY AND A VALUE MAY BOTH BE BINARY =====";

pub const EMPTY_VALUE_HEADER: &'static str =
    "===== SET STORES KEYS WITHOUT A VALUE =====";

pub const DENSE_ORDERING_HEADER: &'static str =
    "===== MGET RETURNS VALUES IN THE ORDER THEY WERE QUERIED =====";

pub const OPTIONAL_ORDERING_HEADER: &'static str =
    "===== MGET RETURNS VALUES IN THE ORDER THEY WERE QUERIED INCLUDING NONEXISTING KEYS(QUERYING OPTIONS OF VECTORS) =====";

pub const DEFAULT_ORDERING_HEADER: &'static str =
    "===== MGET RETURNS VALUES IN THE ORDER THEY WERE QUERIED INCLUDING NONEXISTING KEYS(QUERYING VECTORS WHERE DOES NOT EXIST WILL BE AN EMPTY VECTOR) =====";

pub const OVERWRITE_HEADER: &'static str =
    "===== SET DOES OVERRWRITE A VALUE =====";

pub const CONDITIONAL_SET_HEADER: &'static str =
    "===== SETNX DOES NOT OVERRWRITE A VALUE =====";

pub const BATCH_TTL_HEADER: &'static str =
    "===== PIPELINE: SETNX THEN EXPIRE WILL SET A TTL ON AN EXISTING VALUE =====";

pub const SCRIPT_TTL_HEADER: &'static str =
    "===== A LUA SCRIPT CAN CONDITIONALLY SET A TTL =====";

pub const BATCH_SWEEP_HEADER: &'static str =
    "===== PIPELINE: SET TTL 10000 TIMES WITH SETNX AND EXPIRE =====";

pub const SCRIPT_SWEEP_EMPTY_HEADER: &'static str =
    "===== PIPELINE: SET TTL 10000 TIMES WITH SETNX AND LUA(ON EMPTY VALUES, ADDS TTL) =====";

pub const SCRIPT_SWEEP_FILLED_HEADER: &'static str =
    "===== PIPELINE: SET TTL 10000 TIMES WITH SETNX AND LUA(ON NON EMPTY VALUES, DOES NOT ADD TTL) =====";

/// A scenario: a self-contained contract of the store that a run checks.
#[derive(Clone, Copy, Debug, PartialEq, Eq, Structural)]
pub enum Scenario {
    /// A key and a value of arbitrary bytes round-trip through set and get.
    BinarySafety,
    /// The empty value is stored as a value.
    EmptyValue,
    /// A batched query for existing keys answers in the queried order.
    DenseOrdering,
    /// The same with absent keys among them, read as optional values.
    OptionalOrdering,
    /// The same, read with the empty value in place of an absent key.
    DefaultOrdering,
    /// A set replaces the value.
    Overwrite,
    /// A conditional set does not replace the value.
    ConditionalSet,
    /// The batch form sets a time to live on a value that was there.
    BatchTtl,
    /// The script form sets a time to live only on the empty value.
    ScriptTtl,
    /// The batch form over many keys.
    BatchSweep,
    /// The script form over many keys with empty values.
    ScriptSweepEmpty,
    /// The script form over many keys with non-empty values.
    ScriptSweepFilled,
}

/// The scenarios in the order of a run.
pub open spec fn schedule_model() -> Seq<Scenario> {
    seq![
        Scenario::BinarySafety,
        Scenario::EmptyValue,
        Scenario::DenseOrdering,
        Scenario::OptionalOrdering,
        Scenario::DefaultOrdering,
        Scenario::Overwrite,
        Scenario::ConditionalSet,
        Scenario::BatchTtl,
        Scenario::ScriptTtl,
        Scenario::BatchSweep,
        Scenario::ScriptSweepEmpty,
        Scenario::ScriptSweepFilled,
    ]
}

/// The scenarios in the order of a run: each once.
pub fn schedule() -> (plan: Vec<Scenario>)
    ensures
        plan@ == schedule_model(),
        plan@.no_duplicates(),
{
    let mut plan: Vec<Scenario> = Vec::new();
    plan.push(Scenario::BinarySafety);
    plan.push(Scenario::EmptyValue);
    plan.push(Scenario::DenseOrdering);
    plan.push(Scenario::OptionalOrdering);
    plan.push(Scenario::DefaultOrdering);
    plan.push(Scenario::Overwrite);
    plan.push(Scenario::ConditionalSet);
    plan.push(Scenario::BatchTtl);
    plan.push(Scenario::ScriptTtl);
    plan.push(Scenario::BatchSweep);
    plan.push(Scenario::ScriptSweepEmpty);
    plan.push(Scenario::ScriptSweepFilled);
    assert(plan@ =~= schedule_model());
    plan
}

impl Scenario {
    /// Whether the scenario needs an empty store. The script scenario for
    /// one key sets its key itself, and the sweep over empty values works
    /// on fresh keys beside those of the sweep before it.
    pub open spec fn starts_clean_model(self) -> bool {
        self != Scenario::ScriptTtl && self != Scenario::ScriptSweepEmpty
    }

    /// Whether the store is flushed before the scenario.
    pub fn starts_clean(&self) -> (clean: bool)
        ensures
            clean == self.starts_clean_model(),
    {
        match self {
            Scenario::ScriptTtl => false,
            Scenario::ScriptSweepEmpty => false,
            _ => true,
        }
    }

    /// The numbers of existing and of absent keys that the scenario works
    /// on, where it works on a generated batch.
    pub open spec fn batch_shape_model(self) -> Option<(usize, usize)> {
        match self {
            Scenario::DenseOrdering => Some((10000usize, 0usize)),
            Scenario::OptionalOrdering => Some((5000usize, 5000usize)),
            Scenario::DefaultOrdering => Some((5000usize, 5000usize)),
            Scenario::BatchSweep => Some((10000usize, 0usize)),
            Scenario::ScriptSweepEmpty => Some((10000usize, 0usize)),
            Scenario::ScriptSweepFilled => Some((10000usize, 0usize)),
            _ => None,
        }
    }

    /// The shape of the scenario's batch, if it has one.
    pub fn batch_shape(&self) -> (shape: Option<(usize, usize)>)
        ensures
            shape == self.batch_shape_model(),
    {
        match self {
            Scenario::DenseOrdering => Some((10000, 0)),
            Scenario::OptionalOrdering | Scenario::DefaultOrdering => Some((5000, 5000)),
            Scenario::BatchSweep | Scenario::ScriptSweepEmpty | Scenario::ScriptSweepFilled => Some(
                (10000, 0),
            ),
            _ => None,
        }
    }

    /// The form that a sweep applies and the value that it offers for
    /// every key.
    pub open spec fn sweep_plan_model(self) -> Option<(Form, Seq<u8>)> {
        match self {
            Scenario::BatchSweep => Some((Form::Batch, Seq::<u8>::empty())),
            Scenario::ScriptSweepEmpty => Some((Form::Script, Seq::<u8>::empty())),
            Scenario::ScriptSweepFilled => Some((Form::Script, seq![1u8])),
            _ => None,
        }
    }

    /// The form and the value of the scenario's sweep, if it is one.
    pub fn sweep_plan(&self) -> (plan: Option<(Form, Vec<u8>)>)
        ensures
            match plan {
                Some((form, value)) => self.sweep_plan_model() == Some((form, value@)),
                None => self.sweep_plan_model().is_none(),
            },
    {
        match self {
            Scenario::BatchSweep => Some((Form::Batch, Vec::new())),
            Scenario::ScriptSweepEmpty => Some((Form::Script, Vec::new())),
            Scenario::ScriptSweepFilled => {
                let mut value: Vec<u8> = Vec::new();
                value.push(1);
                assert(value@ =~= seq![1u8]);
                Some((Form::Script, value))
            },
            _ => None,
        }
    }

    /// The line that announces each scenario.
    pub open spec fn header_model(self) -> &'static str {
        match self {
            Scenario::BinarySafety => BINARY_SAFETY_HEADER,
            Scenario::EmptyValue => EMPTY_VALUE_HEADER,
            Scenario::DenseOrdering => DENSE_ORDERING_HEADER,
            Scenario::OptionalOrdering => OPTIONAL_ORDERING_HEADER,
            Scenario::DefaultOrdering => DEFAULT_ORDERING_HEADER,
            Scenario::Overwrite => OVERWRITE_HEADER,
            Scenario::ConditionalSet => CONDITIONAL_SET_HEADER,
            Scenario::BatchTtl => BATCH_TTL_HEADER,
            Scenario::ScriptTtl => SCRIPT_TTL_HEADER,
            Scenario::BatchSweep => BATCH_SWEEP_HEADER,
            Scenario::ScriptSweepEmpty => SCRIPT_SWEEP_EMPTY_HEADER,
            Scenario::ScriptSweepFilled => SCRIPT_SWEEP_FILLED_HEADER,
        }
    }

    /// The line that announces the scenario.
    pub fn header(&self) -> (line: &'static str)
        ensures
            line == self.header_model(),
    {
        match self {
            Scenario::BinarySafety => BINARY_SAFETY_HEADER,
            Scenario::EmptyValue => EMPTY_VALUE_HEADER,
            Scenario::DenseOrdering => DENSE_ORDERING_HEADER,
            Scenario::OptionalOrdering => OPTIONAL_ORDERING_HEADER,
            Scenario::DefaultOrdering => DEFAULT_ORDERING_HEADER,
            Scenario::Overwrite => OVERWRITE_HEADER,
            Scenario::ConditionalSet => CONDITIONAL_SET_HEADER,
            Scenario::BatchTtl => BATCH_TTL_HEADER,
            Scenario::ScriptTtl => SCRIPT_TTL_HEADER,
            Scenario::BatchSweep => BATCH_SWEEP_HEADER,
            Scenario::ScriptSweepEmpty => SCRIPT_SWEEP_EMPTY_HEADER,
            Scenario::ScriptSweepFilled => SCRIPT_SWEEP_FILLED_HEADER,
        }
    }
}

} // verus!
