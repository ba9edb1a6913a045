//! The gateway's laws, proved once and for all over the store model.
//!
//! Each law quantifies over every store state and every key and value,
//! through the same step functions that the reference store is verified
//! against and that the dispatcher's contract names.

use vstd::prelude::*;
use crate::model::{
    EntryModel, StepModel, StoreModel, del_step, get_step, incr_step, lpush_step, lrange_step,
    mget_elem, mget_step, notint_msg, set_step,
};
use crate::numeric::is_int_str;
use crate::respond::status_of;
use crate::value::{OutcomeModel, ValueModel};

verus! {

/// Setting a key and then getting it answers exactly the value set, for
/// every key, every value and every prior state of the store.
pub proof fn law_set_then_get(m: StoreModel, k: Seq<char>, v: Seq<char>)
    ensures
        get_step(set_step(m, k, v).0, k) == StepModel::Answer(ValueModel::Str(v)),
{
}

/// Getting a key never set, and getting one just deleted, answers null: a
/// success, not an error.
pub proof fn law_get_after_del(m: StoreModel, k: Seq<char>)
    ensures
        get_step(del_step(m, k).0, k) == StepModel::Answer(ValueModel::Null),
        !m.contains_key(k) ==> get_step(m, k) == StepModel::Answer(ValueModel::Null),
{
}

/// Setting is idempotent: repeating an identical set leaves the same
/// stored state.
pub proof fn law_set_idempotent(m: StoreModel, k: Seq<char>, v: Seq<char>)
    ensures
        set_step(set_step(m, k, v).0, k, v).0 == set_step(m, k, v).0,
{
    assert(m.insert(k, EntryModel::Str(v)).insert(k, EntryModel::Str(v)) =~= m.insert(
        k,
        EntryModel::Str(v),
    ));
}

/// Deleting is idempotent: both deletions succeed, and the second changes
/// nothing.
pub proof fn law_del_idempotent(m: StoreModel, k: Seq<char>)
    ensures
        del_step(m, k).1 == StepModel::Answer(ValueModel::Unit),
        del_step(del_step(m, k).0, k).1 == StepModel::Answer(ValueModel::Unit),
        del_step(del_step(m, k).0, k).0 == del_step(m, k).0,
{
    assert(m.remove(k).remove(k) =~= m.remove(k));
}

/// A multi-get answers one element per input key, in input order, each
/// decided by its own key alone, whether or not any key exists.
pub proof fn law_mget_aligned(m: StoreModel, ks: Seq<Seq<char>>)
    ensures
        mget_step(m, ks) matches StepModel::Answer(ValueModel::OptArr(os)) && os.len() == ks.len()
            && (forall|i: int| 0 <= i < ks.len() ==> os[i] == mget_elem(m, ks[i])),
{
}

/// Pushing `a` then `b` onto a fresh list and ranging it answers the two
/// in most-recently-pushed-first order.
pub proof fn law_lpush_order(m: StoreModel, k: Seq<char>, a: Seq<char>, b: Seq<char>)
    requires
        !m.contains_key(k),
    ensures
        ({
            let m1 = lpush_step(m, k, a).0;
            let m2 = lpush_step(m1, k, b).0;
            lrange_step(m2, k) == StepModel::Answer(ValueModel::Arr(seq![b, a]))
        }),
{
    let m1 = lpush_step(m, k, a).0;
    assert(m1[k] == EntryModel::List(seq![a]));
    assert(seq![b] + seq![a] =~= seq![b, a]);
}

/// Incrementing a key that holds a non-numeric string is rejected with the
/// store's reason, maps to a server error, and does not touch the key or
/// any other part of the store.
pub proof fn law_incr_non_numeric(m: StoreModel, k: Seq<char>, s: Seq<char>)
    requires
        m.contains_key(k),
        m[k] == EntryModel::Str(s),
        !is_int_str(s),
    ensures
        incr_step(m, k).0 == m,
        incr_step(m, k).1 == StepModel::Rejected(notint_msg()),
        status_of(OutcomeModel::StoreRejected(notint_msg())) == 500,
{
}

/// Two sets racing on one key serialize at the store: whichever lands
/// second wins whole, and a following get answers one of the two values,
/// never a mixture.
pub proof fn law_set_race(m: StoreModel, k: Seq<char>, x: Seq<char>, y: Seq<char>, x_second: bool)
    ensures
        ({
            let first = if x_second {
                y
            } else {
                x
            };
            let second = if x_second {
                x
            } else {
                y
            };
            let after = set_step(set_step(m, k, first).0, k, second).0;
            get_step(after, k) == StepModel::Answer(ValueModel::Str(second)) && (get_step(after, k)
                == StepModel::Answer(ValueModel::Str(x)) || get_step(after, k)
                == StepModel::Answer(ValueModel::Str(y)))
        }),
{
}

} // verus!
