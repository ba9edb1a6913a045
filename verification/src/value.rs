//! Result values of store commands and the three-way outcome of dispatch.

use vstd::prelude::*;

verus! {

/// A value a successful store command can produce.
///
/// `Null` stands for absence of a key, a first-class success of every read
/// operation, never an error. `Unit` is the result of commands whose reply
/// carries no data (SET, DEL).
pub enum Value {
    Unit,
    Null,
    Str(String),
    Int(i64),
    Arr(Vec<String>),
    OptArr(Vec<Option<String>>),
}

/// Mathematical counterpart of `Value`.
pub ghost enum ValueModel {
    Unit,
    Null,
    Str(Seq<char>),
    Int(int),
    Arr(Seq<Seq<char>>),
    OptArr(Seq<Option<Seq<char>>>),
}

impl View for Value {
    type V = ValueModel;

    open spec fn view(&self) -> ValueModel {
        match self {
            Value::Unit => ValueModel::Unit,
            Value::Null => ValueModel::Null,
            Value::Str(s) => ValueModel::Str(s@),
            Value::Int(i) => ValueModel::Int(*i as int),
            Value::Arr(v) => ValueModel::Arr(v@.map_values(|s: String| s@)),
            Value::OptArr(v) => ValueModel::OptArr(
                v@.map_values(
                    |o: Option<String>|
                        match o {
                            Some(s) => Some(s@),
                            None => None,
                        },
                ),
            ),
        }
    }
}

/// The three-way result of one dispatched command.
///
/// `PoolExhaustedOrBroken`: no connection could be checked out of the pool.
/// `StoreRejected`: the store itself refused the command; the reason is the
/// store's own message.
pub enum Outcome {
    Success(Value),
    PoolExhaustedOrBroken,
    StoreRejected(String),
}

/// Mathematical counterpart of `Outcome`.
pub ghost enum OutcomeModel {
    Success(ValueModel),
    PoolExhaustedOrBroken,
    StoreRejected(Seq<char>),
}

impl View for Outcome {
    type V = OutcomeModel;

    open spec fn view(&self) -> OutcomeModel {
        match self {
            Outcome::Success(v) => OutcomeModel::Success(v@),
            Outcome::PoolExhaustedOrBroken => OutcomeModel::PoolExhaustedOrBroken,
            Outcome::StoreRejected(s) => OutcomeModel::StoreRejected(s@),
        }
    }
}

} // verus!
