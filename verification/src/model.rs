//! Mathematical model of the remote store.
//!
//! The store is a finite map from keys to entries; an entry is a plain
//! string or a list of strings. Each command's documented behaviour is a
//! spec function from a store state to the next state and a step result.
//! These functions are the single meaning of every command: the in-memory
//! reference store is verified against them, and the gateway's laws are
//! proved from them.

use vstd::prelude::*;
use crate::numeric::{i64_dec, in_i64_range, int_of, is_int_str};
use crate::value::ValueModel;

verus! {

/// One stored entry: a string or a list of strings.
pub ghost enum EntryModel {
    Str(Seq<char>),
    List(Seq<Seq<char>>),
}

/// The whole store: a finite map from keys to entries.
pub type StoreModel = Map<Seq<char>, EntryModel>;

/// Result of one command against the store: a value, or the store's own
/// rejection message.
pub ghost enum StepModel {
    Answer(ValueModel),
    Rejected(Seq<char>),
}

/// The store's message when a command meets an entry of the wrong kind.
pub open spec fn wrongtype_msg() -> Seq<char> {
    "WRONGTYPE Operation against a key holding the wrong kind of value"@
}

/// The store's message when INCR meets a value that is not a 64-bit
/// decimal integer, or one that would leave the range.
pub open spec fn notint_msg() -> Seq<char> {
    "ERR value is not an integer or out of range"@
}

/// The store's message when a list can grow no further.
pub open spec fn listfull_msg() -> Seq<char> {
    "ERR list is too large"@
}

/// Largest number of elements a stored list can hold.
pub const LIST_CAP: u64 = 4294967295;

/// GET: the string at the key; null when the key is absent, a normal
/// result, never an error; rejected on a list entry.
pub open spec fn get_step(m: StoreModel, k: Seq<char>) -> StepModel {
    if !m.contains_key(k) {
        StepModel::Answer(ValueModel::Null)
    } else {
        match m[k] {
            EntryModel::Str(s) => StepModel::Answer(ValueModel::Str(s)),
            EntryModel::List(_) => StepModel::Rejected(wrongtype_msg()),
        }
    }
}

/// SET: store the string, whatever stood there before; always succeeds,
/// and repeating it changes nothing further.
pub open spec fn set_step(m: StoreModel, k: Seq<char>, v: Seq<char>) -> (StoreModel, StepModel) {
    (m.insert(k, EntryModel::Str(v)), StepModel::Answer(ValueModel::Unit))
}

/// DEL: drop the key whether or not it exists; always succeeds.
pub open spec fn del_step(m: StoreModel, k: Seq<char>) -> (StoreModel, StepModel) {
    (m.remove(k), StepModel::Answer(ValueModel::Unit))
}

/// INCR: treat an absent key as zero, add one to a canonical decimal
/// 64-bit integer and store it back; reject a list entry, a non-integer
/// string, and a step out of the 64-bit range, leaving the store unchanged.
pub open spec fn incr_step(m: StoreModel, k: Seq<char>) -> (StoreModel, StepModel) {
    if !m.contains_key(k) {
        (m.insert(k, EntryModel::Str(i64_dec(1))), StepModel::Answer(ValueModel::Int(1)))
    } else {
        match m[k] {
            EntryModel::List(_) => (m, StepModel::Rejected(wrongtype_msg())),
            EntryModel::Str(s) => {
                if is_int_str(s) && in_i64_range(int_of(s)) && int_of(s) < i64::MAX {
                    (
                        m.insert(k, EntryModel::Str(i64_dec(int_of(s) + 1))),
                        StepModel::Answer(ValueModel::Int(int_of(s) + 1)),
                    )
                } else {
                    (m, StepModel::Rejected(notint_msg()))
                }
            },
        }
    }
}

/// LPUSH: prepend to the list at the key, creating the list when absent,
/// and answer the new length; reject a string entry and a full list.
pub open spec fn lpush_step(m: StoreModel, k: Seq<char>, v: Seq<char>) -> (
    StoreModel,
    StepModel,
) {
    if !m.contains_key(k) {
        (m.insert(k, EntryModel::List(seq![v])), StepModel::Answer(ValueModel::Int(1)))
    } else {
        match m[k] {
            EntryModel::Str(_) => (m, StepModel::Rejected(wrongtype_msg())),
            EntryModel::List(l) => {
                if l.len() >= LIST_CAP {
                    (m, StepModel::Rejected(listfull_msg()))
                } else {
                    (
                        m.insert(k, EntryModel::List(seq![v] + l)),
                        StepModel::Answer(ValueModel::Int(l.len() as int + 1)),
                    )
                }
            },
        }
    }
}

/// LRANGE over the whole list: most recently pushed first, since LPUSH
/// prepends; the empty sequence when the key is absent; rejected on a
/// string entry.
pub open spec fn lrange_step(m: StoreModel, k: Seq<char>) -> StepModel {
    if !m.contains_key(k) {
        StepModel::Answer(ValueModel::Arr(Seq::empty()))
    } else {
        match m[k] {
            EntryModel::Str(_) => StepModel::Rejected(wrongtype_msg()),
            EntryModel::List(l) => StepModel::Answer(ValueModel::Arr(l)),
        }
    }
}

/// One element of an MGET answer: the string at the key, or null when the
/// key is absent or holds a list.
pub open spec fn mget_elem(m: StoreModel, k: Seq<char>) -> Option<Seq<char>> {
    if m.contains_key(k) {
        match m[k] {
            EntryModel::Str(s) => Some(s),
            EntryModel::List(_) => None,
        }
    } else {
        None
    }
}

/// MGET: one optional value per input key, in input order; never rejected,
/// never a mutation; the answer's length always equals the input's.
pub open spec fn mget_step(m: StoreModel, ks: Seq<Seq<char>>) -> StepModel {
    StepModel::Answer(ValueModel::OptArr(Seq::new(ks.len(), |i: int| mget_elem(m, ks[i]))))
}

} // verus!
