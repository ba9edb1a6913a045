//! In-memory reference store, verified against the model.
//!
//! `MemStore` realises the model of `crate::model` exactly: its view is a
//! finite map, and every command's effect and answer equal the model's
//! step function. It serves as the substitute store that the gateway's
//! design calls for: tests can run every route against it in place of the
//! remote service.

use vstd::prelude::*;
use crate::model::{
    EntryModel, StepModel, StoreModel, del_step, get_step, incr_step, listfull_msg, lpush_step,
    lrange_step, mget_elem, mget_step, set_step, LIST_CAP,
};
use crate::numeric::{fmt_i64, parse_i64};
use crate::value::Value;

verus! {

/// One stored entry: a string or a list of strings.
pub enum StoreEntry {
    Str(String),
    List(Vec<String>),
}

impl View for StoreEntry {
    type V = EntryModel;

    open spec fn view(&self) -> EntryModel {
        match self {
            StoreEntry::Str(s) => EntryModel::Str(s@),
            StoreEntry::List(l) => EntryModel::List(l@.map_values(|x: String| x@)),
        }
    }
}

/// One key with its entry.
pub struct KeyedEntry {
    pub key: String,
    pub val: StoreEntry,
}

/// No two entries share a key.
pub open spec fn keys_unique(s: Seq<KeyedEntry>) -> bool {
    forall|i: int, j: int| 0 <= i < j < s.len() ==> s[i].key@ != s[j].key@
}

/// The map an entry sequence denotes.
pub open spec fn as_map(s: Seq<KeyedEntry>) -> StoreModel
    decreases s.len(),
{
    if s.len() == 0 {
        Map::empty()
    } else {
        as_map(s.drop_last()).insert(s.last().key@, s.last().val@)
    }
}

/// The denoted map holds a key exactly when some entry carries it.
pub proof fn lemma_as_map_contains(s: Seq<KeyedEntry>, k: Seq<char>)
    ensures
        as_map(s).contains_key(k) <==> exists|i: int| 0 <= i < s.len() && s[i].key@ == k,
    decreases s.len(),
{
    if s.len() > 0 {
        lemma_as_map_contains(s.drop_last(), k);
        if s.last().key@ == k {
            assert(s[s.len() - 1].key@ == k);
        } else if as_map(s).contains_key(k) {
            let i = choose|i: int| 0 <= i < s.drop_last().len() && s.drop_last()[i].key@ == k;
            assert(s[i].key@ == k);
        } else {
            assert forall|i: int| 0 <= i < s.len() implies s[i].key@ != k by {
                if i < s.len() - 1 {
                    assert(s.drop_last()[i] == s[i]);
                }
            }
        }
    }
}

/// An entry's value is what the denoted map holds at its key.
pub proof fn lemma_as_map_get(s: Seq<KeyedEntry>, i: int)
    requires
        keys_unique(s),
        0 <= i < s.len(),
    ensures
        as_map(s).contains_key(s[i].key@),
        as_map(s)[s[i].key@] == s[i].val@,
    decreases s.len(),
{
    if i == s.len() - 1 {
    } else {
        assert(keys_unique(s.drop_last())) by {
            assert forall|a: int, b: int| 0 <= a < b < s.drop_last().len() implies s.drop_last()[
                a
            ].key@ != s.drop_last()[b].key@ by {
                assert(s.drop_last()[a] == s[a]);
                assert(s.drop_last()[b] == s[b]);
            }
        }
        assert(s.drop_last()[i] == s[i]);
        lemma_as_map_get(s.drop_last(), i);
        assert(s[i].key@ != s.last().key@);
    }
}

/// Appending a fresh entry inserts its binding.
pub proof fn lemma_as_map_push(s: Seq<KeyedEntry>, e: KeyedEntry)
    ensures
        as_map(s.push(e)) == as_map(s).insert(e.key@, e.val@),
{
    assert(s.push(e).drop_last() =~= s);
    assert(s.push(e).last() == e);
}

/// Removing an entry removes its binding, when keys are unique.
pub proof fn lemma_as_map_remove(s: Seq<KeyedEntry>, i: int)
    requires
        keys_unique(s),
        0 <= i < s.len(),
    ensures
        as_map(s.remove(i)) == as_map(s).remove(s[i].key@),
        keys_unique(s.remove(i)),
    decreases s.len(),
{
    assert(keys_unique(s.remove(i))) by {
        assert forall|a: int, b: int| 0 <= a < b < s.remove(i).len() implies s.remove(i)[a].key@
            != s.remove(i)[b].key@ by {
            let a0 = if a < i {
                a
            } else {
                a + 1
            };
            let b0 = if b < i {
                b
            } else {
                b + 1
            };
            assert(s.remove(i)[a] == s[a0]);
            assert(s.remove(i)[b] == s[b0]);
        }
    }
    if i == s.len() - 1 {
        assert(s.remove(i) =~= s.drop_last());
        let k = s[i].key@;
        lemma_as_map_contains(s.drop_last(), k);
        assert forall|j: int| 0 <= j < s.drop_last().len() implies s.drop_last()[j].key@ != k by {
            assert(s.drop_last()[j] == s[j]);
        }
        assert(!as_map(s.drop_last()).contains_key(k));
        assert(as_map(s).remove(k) =~= as_map(s.drop_last()));
    } else {
        assert(keys_unique(s.drop_last())) by {
            assert forall|a: int, b: int| 0 <= a < b < s.drop_last().len() implies s.drop_last()[
                a
            ].key@ != s.drop_last()[b].key@ by {
                assert(s.drop_last()[a] == s[a]);
                assert(s.drop_last()[b] == s[b]);
            }
        }
        assert(s.drop_last()[i] == s[i]);
        lemma_as_map_remove(s.drop_last(), i);
        assert(s.remove(i) =~= s.drop_last().remove(i).push(s.last()));
        lemma_as_map_push(s.drop_last().remove(i), s.last());
        assert(s[i].key@ != s.last().key@);
        assert(as_map(s.remove(i)) =~= as_map(s).remove(s[i].key@));
    }
}

/// The step an executable answer stands for.
pub open spec fn step_of(r: Result<Value, String>) -> StepModel {
    match r {
        Ok(v) => StepModel::Answer(v@),
        Err(m) => StepModel::Rejected(m@),
    }
}

/// The in-memory store: a keyed entry per live key.
pub struct MemStore {
    entries: Vec<KeyedEntry>,
}

impl View for MemStore {
    type V = StoreModel;

    closed spec fn view(&self) -> StoreModel {
        as_map(self.entries@)
    }
}

impl MemStore {
    /// Internal well-formedness: one entry per key.
    pub closed spec fn inv(&self) -> bool {
        keys_unique(self.entries@)
    }

    /// An empty store.
    pub fn new() -> (r: MemStore)
        ensures
            r.inv(),
            r@ == Map::<Seq<char>, EntryModel>::empty(),
    {
        MemStore { entries: Vec::new() }
    }

    /// Index of the entry carrying the key, if any.
    fn find(&self, key: &String) -> (r: Option<usize>)
        ensures
            match r {
                Some(i) => i < self.entries@.len() && self.entries@[i as int].key@ == key@,
                None => forall|j: int| 0 <= j < self.entries@.len() ==> self.entries@[j].key@
                    != key@,
            },
    {
        let mut i: usize = 0;
        while i < self.entries.len()
            invariant
                0 <= i <= self.entries@.len(),
                forall|j: int| 0 <= j < i ==> self.entries@[j].key@ != key@,
            decreases self.entries@.len() - i,
        {
            if self.entries[i].key == *key {
                return Some(i);
            }
            i = i + 1;
        }
        None
    }

    /// Remove and hand back the entry at the key, if any.
    fn take_out(&mut self, key: &String) -> (r: Option<StoreEntry>)
        requires
            old(self).inv(),
        ensures
            final(self).inv(),
            final(self)@ == old(self)@.remove(key@),
            r matches Some(e) ==> old(self)@.contains_key(key@) && e@ == old(self)@[key@],
            r is None ==> !old(self)@.contains_key(key@),
    {
        match self.find(key) {
            Some(i) => {
                proof {
                    lemma_as_map_get(self.entries@, i as int);
                    lemma_as_map_remove(self.entries@, i as int);
                }
                let e = self.entries.remove(i);
                Some(e.val)
            },
            None => {
                proof {
                    lemma_as_map_contains(self.entries@, key@);
                    assert(self@.remove(key@) =~= self@);
                }
                None
            },
        }
    }

    /// Add an entry for a key not yet present.
    fn put_in(&mut self, key: String, val: StoreEntry)
        requires
            old(self).inv(),
            !old(self)@.contains_key(key@),
        ensures
            final(self).inv(),
            final(self)@ == old(self)@.insert(key@, val@),
    {
        proof {
            lemma_as_map_contains(self.entries@, key@);
            lemma_as_map_push(self.entries@, KeyedEntry { key, val });
        }
        self.entries.push(KeyedEntry { key, val });
    }

    /// GET: the string at the key, null when absent.
    pub fn get(&self, key: &String) -> (r: Result<Value, String>)
        requires
            self.inv(),
        ensures
            step_of(r) == get_step(self@, key@),
    {
        proof {
            lemma_as_map_contains(self.entries@, key@);
        }
        match self.find(key) {
            None => Ok(Value::Null),
            Some(i) => {
                proof {
                    lemma_as_map_get(self.entries@, i as int);
                }
                match &self.entries[i].val {
                    StoreEntry::Str(s) => Ok(Value::Str(s.clone())),
                    StoreEntry::List(_) => Err(
                        String::from_str(
                            "WRONGTYPE Operation against a key holding the wrong kind of value",
                        ),
                    ),
                }
            },
        }
    }

    /// SET: store the string under the key, replacing whatever stood there.
    pub fn set(&mut self, key: &String, value: String) -> (r: Result<Value, String>)
        requires
            old(self).inv(),
        ensures
            final(self).inv(),
            (final(self)@, step_of(r)) == set_step(old(self)@, key@, value@),
    {
        let _ = self.take_out(key);
        self.put_in(key.clone(), StoreEntry::Str(value));
        proof {
            assert(old(self)@.remove(key@).insert(key@, set_step(old(self)@, key@, value@).0[
                key@
            ]) =~= set_step(old(self)@, key@, value@).0);
        }
        Ok(Value::Unit)
    }

    /// DEL: drop the key whether or not it exists.
    pub fn del(&mut self, key: &String) -> (r: Result<Value, String>)
        requires
            old(self).inv(),
        ensures
            final(self).inv(),
            (final(self)@, step_of(r)) == del_step(old(self)@, key@),
    {
        let _ = self.take_out(key);
        Ok(Value::Unit)
    }

    /// INCR: add one to the decimal integer at the key, zero when absent.
    pub fn incr(&mut self, key: &String) -> (r: Result<Value, String>)
        requires
            old(self).inv(),
        ensures
            final(self).inv(),
            (final(self)@, step_of(r)) == incr_step(old(self)@, key@),
    {
        match self.take_out(key) {
            None => {
                let one = fmt_i64(1);
                self.put_in(key.clone(), StoreEntry::Str(one));
                Ok(Value::Int(1))
            },
            Some(StoreEntry::List(l)) => {
                self.put_in(key.clone(), StoreEntry::List(l));
                proof {
                    assert(old(self)@.remove(key@).insert(key@, old(self)@[key@]) =~= old(
                        self,
                    )@);
                }
                Err(
                    String::from_str(
                        "WRONGTYPE Operation against a key holding the wrong kind of value",
                    ),
                )
            },
            Some(StoreEntry::Str(s)) => {
                match parse_i64(s.as_str()) {
                    Some(v) if v < i64::MAX => {
                        let next = fmt_i64(v + 1);
                        self.put_in(key.clone(), StoreEntry::Str(next));
                        Ok(Value::Int(v + 1))
                    },
                    _ => {
                        self.put_in(key.clone(), StoreEntry::Str(s));
                        proof {
                            assert(old(self)@.remove(key@).insert(key@, old(self)@[key@]) =~= old(
                                self,
                            )@);
                        }
                        Err(String::from_str("ERR value is not an integer or out of range"))
                    },
                }
            },
        }
    }

    /// LPUSH: prepend to the list at the key, creating it when absent.
    pub fn lpush(&mut self, key: &String, value: String) -> (r: Result<Value, String>)
        requires
            old(self).inv(),
        ensures
            final(self).inv(),
            (final(self)@, step_of(r)) == lpush_step(old(self)@, key@, value@),
    {
        match self.take_out(key) {
            None => {
                let mut l: Vec<String> = Vec::new();
                l.push(value);
                proof {
                    assert(l@.map_values(|x: String| x@) =~= seq![value@]);
                }
                self.put_in(key.clone(), StoreEntry::List(l));
                Ok(Value::Int(1))
            },
            Some(StoreEntry::Str(s)) => {
                self.put_in(key.clone(), StoreEntry::Str(s));
                proof {
                    assert(old(self)@.remove(key@).insert(key@, old(self)@[key@]) =~= old(
                        self,
                    )@);
                }
                Err(
                    String::from_str(
                        "WRONGTYPE Operation against a key holding the wrong kind of value",
                    ),
                )
            },
            Some(StoreEntry::List(mut l)) => {
                if l.len() >= LIST_CAP as usize {
                    self.put_in(key.clone(), StoreEntry::List(l));
                    proof {
                        assert(old(self)@.remove(key@).insert(key@, old(self)@[key@]) =~= old(
                            self,
                        )@);
                    }
                    Err(String::from_str("ERR list is too large"))
                } else {
                    let ghost l0 = l@.map_values(|x: String| x@);
                    let new_len = l.len() + 1;
                    l.insert(0, value);
                    proof {
                        assert(l@.map_values(|x: String| x@) =~= seq![value@] + l0);
                    }
                    self.put_in(key.clone(), StoreEntry::List(l));
                    Ok(Value::Int(new_len as i64))
                }
            },
        }
    }

    /// LRANGE over the whole list: most recently pushed first; the empty
    /// sequence when the key is absent.
    pub fn lrange(&self, key: &String) -> (r: Result<Value, String>)
        requires
            self.inv(),
        ensures
            step_of(r) == lrange_step(self@, key@),
    {
        proof {
            lemma_as_map_contains(self.entries@, key@);
        }
        match self.find(key) {
            None => {
                let out: Vec<String> = Vec::new();
                proof {
                    assert(out@.map_values(|x: String| x@) =~= Seq::<Seq<char>>::empty());
                }
                Ok(Value::Arr(out))
            },
            Some(i) => {
                proof {
                    lemma_as_map_get(self.entries@, i as int);
                }
                match &self.entries[i].val {
                    StoreEntry::Str(_) => Err(
                        String::from_str(
                            "WRONGTYPE Operation against a key holding the wrong kind of value",
                        ),
                    ),
                    StoreEntry::List(l) => {
                        let out = clone_strings(l);
                        proof {
                            assert(out@.map_values(|x: String| x@) =~= l@.map_values(
                                |x: String| x@,
                            ));
                        }
                        Ok(Value::Arr(out))
                    },
                }
            },
        }
    }

    /// MGET: one optional value per key, in input order, null for a key
    /// that is absent or holds a list; never rejected.
    pub fn mget(&self, keys: &Vec<String>) -> (r: Result<Value, String>)
        requires
            self.inv(),
        ensures
            step_of(r) == mget_step(self@, keys@.map_values(|k: String| k@)),
    {
        let ghost ks = keys@.map_values(|k: String| k@);
        let mut out: Vec<Option<String>> = Vec::new();
        let mut i: usize = 0;
        while i < keys.len()
            invariant
                self.inv(),
                0 <= i <= keys@.len(),
                ks == keys@.map_values(|k: String| k@),
                out@.len() == i,
                forall|j: int|
                    0 <= j < i ==> (match out@[j] {
                        Some(s) => Some(s@),
                        None => None,
                    }) == mget_elem(self@, ks[j]),
            decreases keys@.len() - i,
        {
            proof {
                lemma_as_map_contains(self.entries@, keys@[i as int]@);
            }
            match self.find(&keys[i]) {
                None => {
                    out.push(None);
                },
                Some(j) => {
                    proof {
                        lemma_as_map_get(self.entries@, j as int);
                    }
                    match &self.entries[j].val {
                        StoreEntry::Str(s) => {
                            out.push(Some(s.clone()));
                        },
                        StoreEntry::List(_) => {
                            out.push(None);
                        },
                    }
                },
            }
            i = i + 1;
        }
        proof {
            assert(out@.map_values(
                |o: Option<String>|
                    match o {
                        Some(s) => Some(s@),
                        None => None,
                    },
            ) =~= Seq::new(ks.len(), |j: int| mget_elem(self@, ks[j])));
        }
        Ok(Value::OptArr(out))
    }
}

/// Element-for-element copy of a string vector.
fn clone_strings(v: &Vec<String>) -> (r: Vec<String>)
    ensures
        r@ == v@,
{
    let mut r: Vec<String> = Vec::new();
    let mut i: usize = 0;
    while i < v.len()
        invariant
            0 <= i <= v@.len(),
            r@ == v@.subrange(0, i as int),
        decreases v@.len() - i,
    {
        r.push(v[i].clone());
        proof {
            assert(r@ =~= v@.subrange(0, i + 1 as int));
        }
        i = i + 1;
    }
    proof {
        assert(r@ =~= v@);
    }
    r
}

} // verus!
