//! Command dispatch against a store.
//!
//! One fully validated command, one store step: `dispatch_step` says what
//! any store conforming to the model does with a command, and `execute`
//! runs a command against the in-memory reference store, with exactly that
//! effect and answer. The dispatcher itself never produces a pool failure;
//! that outcome arises only at the connection boundary, outside the
//! library, and is handed to the translator as it stands.

use vstd::prelude::*;
use crate::command::{CmdModel, StoreCommand};
use crate::model::{
    StepModel, StoreModel, del_step, get_step, incr_step, lpush_step, lrange_step, mget_step,
    set_step,
};
use crate::store::MemStore;
use crate::value::Outcome;

verus! {

/// The state and step any conforming store yields for one command.
pub open spec fn dispatch_step(m: StoreModel, c: CmdModel) -> (StoreModel, StepModel) {
    match c {
        CmdModel::GET { key } => (m, get_step(m, key)),
        CmdModel::SET { key, value } => set_step(m, key, value),
        CmdModel::INCR { key } => incr_step(m, key),
        CmdModel::DEL { key } => del_step(m, key),
        CmdModel::LPUSH { key, value } => lpush_step(m, key, value),
        CmdModel::LRANGE { key } => (m, lrange_step(m, key)),
        CmdModel::MGET { keys } => (m, mget_step(m, keys)),
    }
}

/// The outcome reports exactly this step.
pub open spec fn outcome_matches(o: Outcome, s: StepModel) -> bool {
    match o {
        Outcome::Success(v) => s == StepModel::Answer(v@),
        Outcome::StoreRejected(m) => s == StepModel::Rejected(m@),
        Outcome::PoolExhaustedOrBroken => false,
    }
}

/// Run one command against the reference store.
pub fn execute(store: &mut MemStore, cmd: &StoreCommand) -> (r: Outcome)
    requires
        old(store).inv(),
    ensures
        final(store).inv(),
        final(store)@ == dispatch_step(old(store)@, cmd@).0,
        outcome_matches(r, dispatch_step(old(store)@, cmd@).1),
{
    let res = match cmd {
        StoreCommand::GET { key } => store.get(key),
        StoreCommand::SET { key, value } => store.set(key, value.clone()),
        StoreCommand::INCR { key } => store.incr(key),
        StoreCommand::DEL { key } => store.del(key),
        StoreCommand::LPUSH { key, value } => store.lpush(key, value.clone()),
        StoreCommand::LRANGE { key } => store.lrange(key),
        StoreCommand::MGET { keys } => store.mget(keys),
    };
    match res {
        Ok(v) => Outcome::Success(v),
        Err(m) => Outcome::StoreRejected(m),
    }
}

} // verus!
