//! Outcome-to-HTTP translation.
//!
//! Every outcome becomes a well-formed reply: a success answers with the
//! value JSON-encoded, or a short confirmation for commands whose value
//! carries no data; a pool failure answers with a generic server error
//! that leaks no connection detail; a store rejection answers with a
//! server error carrying the store's own reason, which is operationally
//! useful and not sensitive. Malformed input never reaches an outcome: it
//! is answered as a client error straight from validation.

use vstd::prelude::*;
use crate::Reply;
use crate::command::{CmdModel, InputError, StoreCommand};
use crate::json::{json_null, json_opt_arr, json_str, json_str_arr};
use crate::json::{json_opt_vec, json_string, json_string_vec};
use crate::numeric::{fmt_i64, i64_dec};
use crate::value::{Outcome, OutcomeModel, Value, ValueModel};

verus! {

/// The status every outcome maps to: success is OK, both failure domains
/// are server errors; nothing else can come out of a dispatched command.
pub open spec fn status_of(o: OutcomeModel) -> int {
    match o {
        OutcomeModel::Success(_) => 200,
        OutcomeModel::PoolExhaustedOrBroken => 500,
        OutcomeModel::StoreRejected(_) => 500,
    }
}

/// Confirmation line for a command whose successful value carries no data.
pub open spec fn confirmation(c: CmdModel) -> Seq<char> {
    match c {
        CmdModel::SET { key, value } => "set "@ + key + ":"@ + value,
        CmdModel::DEL { key } => "delete "@ + key,
        CmdModel::LPUSH { key, value } => "lpush "@ + key + ":"@ + value,
        _ => "ok"@,
    }
}

/// The reply body for one command and one outcome. A successful push
/// answers its confirmation line: the new length it carries is real but
/// the reply has no use for it.
pub open spec fn body_of(c: CmdModel, o: OutcomeModel) -> Seq<char> {
    match o {
        OutcomeModel::Success(v) => if c is LPUSH {
            confirmation(c)
        } else {
            match v {
                ValueModel::Unit => confirmation(c),
                ValueModel::Null => json_null(),
                ValueModel::Str(s) => json_str(s),
                ValueModel::Int(n) => i64_dec(n),
                ValueModel::Arr(a) => json_str_arr(a),
                ValueModel::OptArr(a) => json_opt_arr(a),
            }
        },
        OutcomeModel::PoolExhaustedOrBroken => "store connection unavailable"@,
        OutcomeModel::StoreRejected(m) => "store error: "@ + m,
    }
}

/// Translate one outcome of one command into an HTTP reply.
pub fn respond(cmd: &StoreCommand, outcome: &Outcome) -> (r: Reply)
    ensures
        r.status as int == status_of(outcome@),
        r.body@ == body_of(cmd@, outcome@),
{
    match outcome {
        Outcome::Success(v) => {
            let body = if matches!(cmd, StoreCommand::LPUSH { .. }) {
                confirmation_line(cmd)
            } else {
                match v {
                    Value::Unit => confirmation_line(cmd),
                    Value::Null => {
                        let b = String::from_str("null");
                        proof {
                            reveal_strlit("null");
                            assert(b@ =~= json_null());
                        }
                        b
                    },
                    Value::Str(s) => json_string(s.as_str()),
                    Value::Int(n) => fmt_i64(*n),
                    Value::Arr(a) => json_string_vec(a),
                    Value::OptArr(a) => json_opt_vec(a),
                }
            };
            Reply { status: 200, body }
        },
        Outcome::PoolExhaustedOrBroken => Reply {
            status: 500,
            body: String::from_str("store connection unavailable"),
        },
        Outcome::StoreRejected(m) => {
            let mut body = String::from_str("store error: ");
            body.append(m.as_str());
            Reply { status: 500, body }
        },
    }
}

/// The confirmation line, built from the command's own arguments.
fn confirmation_line(cmd: &StoreCommand) -> (r: String)
    ensures
        r@ == confirmation(cmd@),
{
    match cmd {
        StoreCommand::SET { key, value } => {
            let mut r = String::from_str("set ");
            r.append(key.as_str());
            r.append(":");
            r.append(value.as_str());
            r
        },
        StoreCommand::DEL { key } => {
            let mut r = String::from_str("delete ");
            r.append(key.as_str());
            r
        },
        StoreCommand::LPUSH { key, value } => {
            let mut r = String::from_str("lpush ");
            r.append(key.as_str());
            r.append(":");
            r.append(value.as_str());
            r
        },
        _ => String::from_str("ok"),
    }
}

/// Message for each kind of malformed input.
pub open spec fn input_msg(e: InputError) -> Seq<char> {
    match e {
        InputError::EmptyKey => "empty key"@,
        InputError::EmptyValue => "empty value"@,
        InputError::NoKeys => "no keys given"@,
    }
}

/// Translate malformed input into a client-error reply, before any
/// connection is acquired.
pub fn input_reply(e: &InputError) -> (r: Reply)
    ensures
        r.status == 400,
        r.body@ == input_msg(*e),
{
    match e {
        InputError::EmptyKey => Reply { status: 400, body: String::from_str("empty key") },
        InputError::EmptyValue => Reply { status: 400, body: String::from_str("empty value") },
        InputError::NoKeys => Reply { status: 400, body: String::from_str("no keys given") },
    }
}

} // verus!
