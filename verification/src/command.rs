//! Store commands and their construction from validated route arguments.
//!
//! A command is fully constructed and argument-validated before any
//! connection is acquired: the builders below are the only way route
//! arguments become a command, and each rejects malformed input with an
//! `InputError`, which the gateway reports as a client error before any
//! store round trip.

use vstd::prelude::*;

verus! {

/// One store command, a closed tagged union over the gateway's surface.
#[derive(Debug, Clone, PartialEq, Eq)]
#[allow(non_camel_case_types)]
pub enum StoreCommand {
    GET { key: String },
    SET { key: String, value: String },
    INCR { key: String },
    DEL { key: String },
    LPUSH { key: String, value: String },
    LRANGE { key: String },
    MGET { keys: Vec<String> },
}

/// Malformed input, detected before any connection is acquired.
#[derive(Debug, Clone, PartialEq, Eq)]
pub enum InputError {
    /// A key argument was empty.
    EmptyKey,
    /// A value argument was empty.
    EmptyValue,
    /// The multi-key request carried no keys at all.
    NoKeys,
}

/// Mathematical counterpart of `StoreCommand`.
#[allow(non_camel_case_types)]
pub ghost enum CmdModel {
    GET { key: Seq<char> },
    SET { key: Seq<char>, value: Seq<char> },
    INCR { key: Seq<char> },
    DEL { key: Seq<char> },
    LPUSH { key: Seq<char>, value: Seq<char> },
    LRANGE { key: Seq<char> },
    MGET { keys: Seq<Seq<char>> },
}

impl View for StoreCommand {
    type V = CmdModel;

    open spec fn view(&self) -> CmdModel {
        match self {
            StoreCommand::GET { key } => CmdModel::GET { key: key@ },
            StoreCommand::SET { key, value } => CmdModel::SET { key: key@, value: value@ },
            StoreCommand::INCR { key } => CmdModel::INCR { key: key@ },
            StoreCommand::DEL { key } => CmdModel::DEL { key: key@ },
            StoreCommand::LPUSH { key, value } => CmdModel::LPUSH { key: key@, value: value@ },
            StoreCommand::LRANGE { key } => CmdModel::LRANGE { key: key@ },
            StoreCommand::MGET { keys } => CmdModel::MGET {
                keys: keys@.map_values(|k: String| k@),
            },
        }
    }
}

impl StoreCommand {
    /// Every key and value argument of the command is a non-empty string.
    pub open spec fn wf(&self) -> bool {
        match self {
            StoreCommand::GET { key } => key@.len() > 0,
            StoreCommand::SET { key, value } => key@.len() > 0 && value@.len() > 0,
            StoreCommand::INCR { key } => key@.len() > 0,
            StoreCommand::DEL { key } => key@.len() > 0,
            StoreCommand::LPUSH { key, value } => key@.len() > 0 && value@.len() > 0,
            StoreCommand::LRANGE { key } => key@.len() > 0,
            StoreCommand::MGET { keys } => keys@.len() > 0 && forall|i: int|
                0 <= i < keys@.len() ==> keys@[i]@.len() > 0,
        }
    }
}

/// Build a GET command from one route argument.
pub fn get_command(key: String) -> (r: Result<StoreCommand, InputError>)
    ensures
        key@.len() > 0 ==> r == Ok::<StoreCommand, InputError>(StoreCommand::GET { key }),
        key@.len() == 0 ==> r == Err::<StoreCommand, InputError>(InputError::EmptyKey),
        r is Ok ==> r.unwrap().wf(),
{
    if key.as_str().is_empty() {
        Err(InputError::EmptyKey)
    } else {
        Ok(StoreCommand::GET { key })
    }
}

/// Build a SET command from two route arguments.
pub fn set_command(key: String, value: String) -> (r: Result<StoreCommand, InputError>)
    ensures
        key@.len() > 0 && value@.len() > 0 ==> r == Ok::<StoreCommand, InputError>(
            StoreCommand::SET { key, value },
        ),
        key@.len() == 0 ==> r == Err::<StoreCommand, InputError>(InputError::EmptyKey),
        key@.len() > 0 && value@.len() == 0 ==> r == Err::<StoreCommand, InputError>(
            InputError::EmptyValue,
        ),
        r is Ok ==> r.unwrap().wf(),
{
    if key.as_str().is_empty() {
        Err(InputError::EmptyKey)
    } else if value.as_str().is_empty() {
        Err(InputError::EmptyValue)
    } else {
        Ok(StoreCommand::SET { key, value })
    }
}

/// Build an INCR command from one route argument.
pub fn incr_command(key: String) -> (r: Result<StoreCommand, InputError>)
    ensures
        key@.len() > 0 ==> r == Ok::<StoreCommand, InputError>(StoreCommand::INCR { key }),
        key@.len() == 0 ==> r == Err::<StoreCommand, InputError>(InputError::EmptyKey),
        r is Ok ==> r.unwrap().wf(),
{
    if key.as_str().is_empty() {
        Err(InputError::EmptyKey)
    } else {
        Ok(StoreCommand::INCR { key })
    }
}

/// Build a DEL command from one route argument.
pub fn del_command(key: String) -> (r: Result<StoreCommand, InputError>)
    ensures
        key@.len() > 0 ==> r == Ok::<StoreCommand, InputError>(StoreCommand::DEL { key }),
        key@.len() == 0 ==> r == Err::<StoreCommand, InputError>(InputError::EmptyKey),
        r is Ok ==> r.unwrap().wf(),
{
    if key.as_str().is_empty() {
        Err(InputError::EmptyKey)
    } else {
        Ok(StoreCommand::DEL { key })
    }
}

/// Build an LPUSH command from two route arguments.
pub fn lpush_command(key: String, value: String) -> (r: Result<StoreCommand, InputError>)
    ensures
        key@.len() > 0 && value@.len() > 0 ==> r == Ok::<StoreCommand, InputError>(
            StoreCommand::LPUSH { key, value },
        ),
        key@.len() == 0 ==> r == Err::<StoreCommand, InputError>(InputError::EmptyKey),
        key@.len() > 0 && value@.len() == 0 ==> r == Err::<StoreCommand, InputError>(
            InputError::EmptyValue,
        ),
        r is Ok ==> r.unwrap().wf(),
{
    if key.as_str().is_empty() {
        Err(InputError::EmptyKey)
    } else if value.as_str().is_empty() {
        Err(InputError::EmptyValue)
    } else {
        Ok(StoreCommand::LPUSH { key, value })
    }
}

/// Build an LRANGE command from one route argument.
pub fn lrange_command(key: String) -> (r: Result<StoreCommand, InputError>)
    ensures
        key@.len() > 0 ==> r == Ok::<StoreCommand, InputError>(StoreCommand::LRANGE { key }),
        key@.len() == 0 ==> r == Err::<StoreCommand, InputError>(InputError::EmptyKey),
        r is Ok ==> r.unwrap().wf(),
{
    if key.as_str().is_empty() {
        Err(InputError::EmptyKey)
    } else {
        Ok(StoreCommand::LRANGE { key })
    }
}

/// Build an MGET command from the decoded request body: a sequence of key
/// strings. Rejected when the sequence is empty or any key is empty, so that
/// no partial command ever reaches the store.
pub fn mget_command(keys: Vec<String>) -> (r: Result<StoreCommand, InputError>)
    ensures
        keys@.len() == 0 ==> r == Err::<StoreCommand, InputError>(InputError::NoKeys),
        keys@.len() > 0 && (exists|i: int| 0 <= i < keys@.len() && keys@[i]@.len() == 0) ==> r
            == Err::<StoreCommand, InputError>(InputError::EmptyKey),
        keys@.len() > 0 && (forall|i: int| 0 <= i < keys@.len() ==> keys@[i]@.len() > 0) ==> r
            == Ok::<StoreCommand, InputError>(StoreCommand::MGET { keys }),
        r is Ok ==> r.unwrap().wf(),
{
    if keys.len() == 0 {
        return Err(InputError::NoKeys);
    }
    let mut i: usize = 0;
    while i < keys.len()
        invariant
            0 <= i <= keys@.len(),
            forall|j: int| 0 <= j < i ==> keys@[j]@.len() > 0,
        decreases keys@.len() - i,
    {
        if keys[i].as_str().is_empty() {
            return Err(InputError::EmptyKey);
        }
        i = i + 1;
    }
    Ok(StoreCommand::MGET { keys })
}

} // verus!
